use vstd::prelude::*;

use crate::chars::{is_lower_word, lower_seq};

verus! {

/// The twelve calendar months.
#[derive(PartialEq, Eq, Structural, Hash, Copy, Clone, Debug)]
pub enum Months {
    Jan,
    Feb,
    Mar,
    Apr,
    May,
    Jun,
    Jul,
    Aug,
    Sep,
    Oct,
    Nov,
    Dec,
}

/// The two-digit numeric code of a month.
pub open spec fn month_num_seq(m: Months) -> Seq<char> {
    match m {
        Months::Jan => "01"@,
        Months::Feb => "02"@,
        Months::Mar => "03"@,
        Months::Apr => "04"@,
        Months::May => "05"@,
        Months::Jun => "06"@,
        Months::Jul => "07"@,
        Months::Aug => "08"@,
        Months::Sep => "09"@,
        Months::Oct => "10"@,
        Months::Nov => "11"@,
        Months::Dec => "12"@,
    }
}

/// The lower-case three-letter abbreviation of a month.
pub open spec fn month_abbrev_seq(m: Months) -> Seq<char> {
    match m {
        Months::Jan => "jan"@,
        Months::Feb => "feb"@,
        Months::Mar => "mar"@,
        Months::Apr => "apr"@,
        Months::May => "may"@,
        Months::Jun => "jun"@,
        Months::Jul => "jul"@,
        Months::Aug => "aug"@,
        Months::Sep => "sep"@,
        Months::Oct => "oct"@,
        Months::Nov => "nov"@,
        Months::Dec => "dec"@,
    }
}

/// The lower-case full English name of a month.
pub open spec fn month_full_seq(m: Months) -> Seq<char> {
    match m {
        Months::Jan => "january"@,
        Months::Feb => "february"@,
        Months::Mar => "march"@,
        Months::Apr => "april"@,
        Months::May => "may"@,
        Months::Jun => "june"@,
        Months::Jul => "july"@,
        Months::Aug => "august"@,
        Months::Sep => "september"@,
        Months::Oct => "october"@,
        Months::Nov => "november"@,
        Months::Dec => "december"@,
    }
}

/// The reverse lexicon: any recognised spelling (two-digit numeric code,
/// three-letter abbreviation or full English name, all lower case) back to
/// the month. Every other sequence is unknown.
pub open spec fn month_of_spelling(s: Seq<char>) -> Option<Months> {
    if s == "01"@ {
        Some(Months::Jan)
    } else if s == "02"@ {
        Some(Months::Feb)
    } else if s == "03"@ {
        Some(Months::Mar)
    } else if s == "04"@ {
        Some(Months::Apr)
    } else if s == "05"@ {
        Some(Months::May)
    } else if s == "06"@ {
        Some(Months::Jun)
    } else if s == "07"@ {
        Some(Months::Jul)
    } else if s == "08"@ {
        Some(Months::Aug)
    } else if s == "09"@ {
        Some(Months::Sep)
    } else if s == "10"@ {
        Some(Months::Oct)
    } else if s == "11"@ {
        Some(Months::Nov)
    } else if s == "12"@ {
        Some(Months::Dec)
    } else if s == "jan"@ {
        Some(Months::Jan)
    } else if s == "feb"@ {
        Some(Months::Feb)
    } else if s == "mar"@ {
        Some(Months::Mar)
    } else if s == "apr"@ {
        Some(Months::Apr)
    } else if s == "may"@ {
        Some(Months::May)
    } else if s == "jun"@ {
        Some(Months::Jun)
    } else if s == "jul"@ {
        Some(Months::Jul)
    } else if s == "aug"@ {
        Some(Months::Aug)
    } else if s == "sep"@ {
        Some(Months::Sep)
    } else if s == "oct"@ {
        Some(Months::Oct)
    } else if s == "nov"@ {
        Some(Months::Nov)
    } else if s == "dec"@ {
        Some(Months::Dec)
    } else if s == "january"@ {
        Some(Months::Jan)
    } else if s == "february"@ {
        Some(Months::Feb)
    } else if s == "march"@ {
        Some(Months::Mar)
    } else if s == "april"@ {
        Some(Months::Apr)
    } else if s == "june"@ {
        Some(Months::Jun)
    } else if s == "july"@ {
        Some(Months::Jul)
    } else if s == "august"@ {
        Some(Months::Aug)
    } else if s == "september"@ {
        Some(Months::Sep)
    } else if s == "october"@ {
        Some(Months::Oct)
    } else if s == "november"@ {
        Some(Months::Nov)
    } else if s == "december"@ {
        Some(Months::Dec)
    } else {
        None
    }
}

impl Months {
    /// The two-digit numeric code, e.g. "06" for June.
    pub fn numeric(&self) -> (r: &'static str)
        ensures
            r@ == month_num_seq(*self),
    {
        match *self {
            Months::Jan => "01",
            Months::Feb => "02",
            Months::Mar => "03",
            Months::Apr => "04",
            Months::May => "05",
            Months::Jun => "06",
            Months::Jul => "07",
            Months::Aug => "08",
            Months::Sep => "09",
            Months::Oct => "10",
            Months::Nov => "11",
            Months::Dec => "12",
        }
    }

    /// The lower-case three-letter abbreviation, e.g. "jun".
    pub fn abbrev(&self) -> (r: &'static str)
        ensures
            r@ == month_abbrev_seq(*self),
    {
        match *self {
            Months::Jan => "jan",
            Months::Feb => "feb",
            Months::Mar => "mar",
            Months::Apr => "apr",
            Months::May => "may",
            Months::Jun => "jun",
            Months::Jul => "jul",
            Months::Aug => "aug",
            Months::Sep => "sep",
            Months::Oct => "oct",
            Months::Nov => "nov",
            Months::Dec => "dec",
        }
    }

    /// The lower-case full English name, e.g. "june".
    pub fn full_name(&self) -> (r: &'static str)
        ensures
            r@ == month_full_seq(*self),
    {
        match *self {
            Months::Jan => "january",
            Months::Feb => "february",
            Months::Mar => "march",
            Months::Apr => "april",
            Months::May => "may",
            Months::Jun => "june",
            Months::Jul => "july",
            Months::Aug => "august",
            Months::Sep => "september",
            Months::Oct => "october",
            Months::Nov => "november",
            Months::Dec => "december",
        }
    }

    /// A short display name, e.g. "Jun".
    pub fn name(&self) -> (r: &'static str) {
        match *self {
            Months::Jan => "Jan",
            Months::Feb => "Feb",
            Months::Mar => "Mar",
            Months::Apr => "Apr",
            Months::May => "May",
            Months::Jun => "Jun",
            Months::Jul => "Jul",
            Months::Aug => "Aug",
            Months::Sep => "Sep",
            Months::Oct => "Oct",
            Months::Nov => "Nov",
            Months::Dec => "Dec",
        }
    }
}

/// Case-sensitive reverse lookup of a spelling.
pub fn month_from_spelling(s: &str) -> (r: Option<Months>)
    ensures
        r == month_of_spelling(s@),
{
    if crate::chars::str_eq(s, "01") {
        Some(Months::Jan)
    } else if crate::chars::str_eq(s, "02") {
        Some(Months::Feb)
    } else if crate::chars::str_eq(s, "03") {
        Some(Months::Mar)
    } else if crate::chars::str_eq(s, "04") {
        Some(Months::Apr)
    } else if crate::chars::str_eq(s, "05") {
        Some(Months::May)
    } else if crate::chars::str_eq(s, "06") {
        Some(Months::Jun)
    } else if crate::chars::str_eq(s, "07") {
        Some(Months::Jul)
    } else if crate::chars::str_eq(s, "08") {
        Some(Months::Aug)
    } else if crate::chars::str_eq(s, "09") {
        Some(Months::Sep)
    } else if crate::chars::str_eq(s, "10") {
        Some(Months::Oct)
    } else if crate::chars::str_eq(s, "11") {
        Some(Months::Nov)
    } else if crate::chars::str_eq(s, "12") {
        Some(Months::Dec)
    } else if crate::chars::str_eq(s, "jan") {
        Some(Months::Jan)
    } else if crate::chars::str_eq(s, "feb") {
        Some(Months::Feb)
    } else if crate::chars::str_eq(s, "mar") {
        Some(Months::Mar)
    } else if crate::chars::str_eq(s, "apr") {
        Some(Months::Apr)
    } else if crate::chars::str_eq(s, "may") {
        Some(Months::May)
    } else if crate::chars::str_eq(s, "jun") {
        Some(Months::Jun)
    } else if crate::chars::str_eq(s, "jul") {
        Some(Months::Jul)
    } else if crate::chars::str_eq(s, "aug") {
        Some(Months::Aug)
    } else if crate::chars::str_eq(s, "sep") {
        Some(Months::Sep)
    } else if crate::chars::str_eq(s, "oct") {
        Some(Months::Oct)
    } else if crate::chars::str_eq(s, "nov") {
        Some(Months::Nov)
    } else if crate::chars::str_eq(s, "dec") {
        Some(Months::Dec)
    } else if crate::chars::str_eq(s, "january") {
        Some(Months::Jan)
    } else if crate::chars::str_eq(s, "february") {
        Some(Months::Feb)
    } else if crate::chars::str_eq(s, "march") {
        Some(Months::Mar)
    } else if crate::chars::str_eq(s, "april") {
        Some(Months::Apr)
    } else if crate::chars::str_eq(s, "june") {
        Some(Months::Jun)
    } else if crate::chars::str_eq(s, "july") {
        Some(Months::Jul)
    } else if crate::chars::str_eq(s, "august") {
        Some(Months::Aug)
    } else if crate::chars::str_eq(s, "september") {
        Some(Months::Sep)
    } else if crate::chars::str_eq(s, "october") {
        Some(Months::Oct)
    } else if crate::chars::str_eq(s, "november") {
        Some(Months::Nov)
    } else if crate::chars::str_eq(s, "december") {
        Some(Months::Dec)
    } else {
        None
    }
}

/// Case-insensitive reverse lookup: the spelling is ASCII-lower-cased first.
pub fn month_from_folded(s: &str) -> (r: Option<Months>)
    ensures
        r == month_of_spelling(lower_seq(s@)),
{
    if crate::chars::str_eq_folded(s, "01") {
        Some(Months::Jan)
    } else if crate::chars::str_eq_folded(s, "02") {
        Some(Months::Feb)
    } else if crate::chars::str_eq_folded(s, "03") {
        Some(Months::Mar)
    } else if crate::chars::str_eq_folded(s, "04") {
        Some(Months::Apr)
    } else if crate::chars::str_eq_folded(s, "05") {
        Some(Months::May)
    } else if crate::chars::str_eq_folded(s, "06") {
        Some(Months::Jun)
    } else if crate::chars::str_eq_folded(s, "07") {
        Some(Months::Jul)
    } else if crate::chars::str_eq_folded(s, "08") {
        Some(Months::Aug)
    } else if crate::chars::str_eq_folded(s, "09") {
        Some(Months::Sep)
    } else if crate::chars::str_eq_folded(s, "10") {
        Some(Months::Oct)
    } else if crate::chars::str_eq_folded(s, "11") {
        Some(Months::Nov)
    } else if crate::chars::str_eq_folded(s, "12") {
        Some(Months::Dec)
    } else if crate::chars::str_eq_folded(s, "jan") {
        Some(Months::Jan)
    } else if crate::chars::str_eq_folded(s, "feb") {
        Some(Months::Feb)
    } else if crate::chars::str_eq_folded(s, "mar") {
        Some(Months::Mar)
    } else if crate::chars::str_eq_folded(s, "apr") {
        Some(Months::Apr)
    } else if crate::chars::str_eq_folded(s, "may") {
        Some(Months::May)
    } else if crate::chars::str_eq_folded(s, "jun") {
        Some(Months::Jun)
    } else if crate::chars::str_eq_folded(s, "jul") {
        Some(Months::Jul)
    } else if crate::chars::str_eq_folded(s, "aug") {
        Some(Months::Aug)
    } else if crate::chars::str_eq_folded(s, "sep") {
        Some(Months::Sep)
    } else if crate::chars::str_eq_folded(s, "oct") {
        Some(Months::Oct)
    } else if crate::chars::str_eq_folded(s, "nov") {
        Some(Months::Nov)
    } else if crate::chars::str_eq_folded(s, "dec") {
        Some(Months::Dec)
    } else if crate::chars::str_eq_folded(s, "january") {
        Some(Months::Jan)
    } else if crate::chars::str_eq_folded(s, "february") {
        Some(Months::Feb)
    } else if crate::chars::str_eq_folded(s, "march") {
        Some(Months::Mar)
    } else if crate::chars::str_eq_folded(s, "april") {
        Some(Months::Apr)
    } else if crate::chars::str_eq_folded(s, "june") {
        Some(Months::Jun)
    } else if crate::chars::str_eq_folded(s, "july") {
        Some(Months::Jul)
    } else if crate::chars::str_eq_folded(s, "august") {
        Some(Months::Aug)
    } else if crate::chars::str_eq_folded(s, "september") {
        Some(Months::Sep)
    } else if crate::chars::str_eq_folded(s, "october") {
        Some(Months::Oct)
    } else if crate::chars::str_eq_folded(s, "november") {
        Some(Months::Nov)
    } else if crate::chars::str_eq_folded(s, "december") {
        Some(Months::Dec)
    } else {
        None
    }
}

/// Lengths and characters of every spelling in the lexicon, spelt out so that
/// equalities and disequalities between spellings are decidable.
pub proof fn lemma_lexicon_chars()
    ensures
        "01"@.len() == 2 && "01"@[0] == '0' && "01"@[1] == '1',
        "02"@.len() == 2 && "02"@[0] == '0' && "02"@[1] == '2',
        "03"@.len() == 2 && "03"@[0] == '0' && "03"@[1] == '3',
        "04"@.len() == 2 && "04"@[0] == '0' && "04"@[1] == '4',
        "05"@.len() == 2 && "05"@[0] == '0' && "05"@[1] == '5',
        "06"@.len() == 2 && "06"@[0] == '0' && "06"@[1] == '6',
        "07"@.len() == 2 && "07"@[0] == '0' && "07"@[1] == '7',
        "08"@.len() == 2 && "08"@[0] == '0' && "08"@[1] == '8',
        "09"@.len() == 2 && "09"@[0] == '0' && "09"@[1] == '9',
        "10"@.len() == 2 && "10"@[0] == '1' && "10"@[1] == '0',
        "11"@.len() == 2 && "11"@[0] == '1' && "11"@[1] == '1',
        "12"@.len() == 2 && "12"@[0] == '1' && "12"@[1] == '2',
        "jan"@.len() == 3 && "jan"@[0] == 'j' && "jan"@[1] == 'a' && "jan"@[2] == 'n',
        "feb"@.len() == 3 && "feb"@[0] == 'f' && "feb"@[1] == 'e' && "feb"@[2] == 'b',
        "mar"@.len() == 3 && "mar"@[0] == 'm' && "mar"@[1] == 'a' && "mar"@[2] == 'r',
        "apr"@.len() == 3 && "apr"@[0] == 'a' && "apr"@[1] == 'p' && "apr"@[2] == 'r',
        "may"@.len() == 3 && "may"@[0] == 'm' && "may"@[1] == 'a' && "may"@[2] == 'y',
        "jun"@.len() == 3 && "jun"@[0] == 'j' && "jun"@[1] == 'u' && "jun"@[2] == 'n',
        "jul"@.len() == 3 && "jul"@[0] == 'j' && "jul"@[1] == 'u' && "jul"@[2] == 'l',
        "aug"@.len() == 3 && "aug"@[0] == 'a' && "aug"@[1] == 'u' && "aug"@[2] == 'g',
        "sep"@.len() == 3 && "sep"@[0] == 's' && "sep"@[1] == 'e' && "sep"@[2] == 'p',
        "oct"@.len() == 3 && "oct"@[0] == 'o' && "oct"@[1] == 'c' && "oct"@[2] == 't',
        "nov"@.len() == 3 && "nov"@[0] == 'n' && "nov"@[1] == 'o' && "nov"@[2] == 'v',
        "dec"@.len() == 3 && "dec"@[0] == 'd' && "dec"@[1] == 'e' && "dec"@[2] == 'c',
        "january"@.len() == 7 && "january"@[0] == 'j' && "january"@[1] == 'a' && "january"@[2] == 'n' && "january"@[3] == 'u' && "january"@[4] == 'a' && "january"@[5] == 'r' && "january"@[6] == 'y',
        "february"@.len() == 8 && "february"@[0] == 'f' && "february"@[1] == 'e' && "february"@[2] == 'b' && "february"@[3] == 'r' && "february"@[4] == 'u' && "february"@[5] == 'a' && "february"@[6] == 'r' && "february"@[7] == 'y',
        "march"@.len() == 5 && "march"@[0] == 'm' && "march"@[1] == 'a' && "march"@[2] == 'r' && "march"@[3] == 'c' && "march"@[4] == 'h',
        "april"@.len() == 5 && "april"@[0] == 'a' && "april"@[1] == 'p' && "april"@[2] == 'r' && "april"@[3] == 'i' && "april"@[4] == 'l',
        "june"@.len() == 4 && "june"@[0] == 'j' && "june"@[1] == 'u' && "june"@[2] == 'n' && "june"@[3] == 'e',
        "july"@.len() == 4 && "july"@[0] == 'j' && "july"@[1] == 'u' && "july"@[2] == 'l' && "july"@[3] == 'y',
        "august"@.len() == 6 && "august"@[0] == 'a' && "august"@[1] == 'u' && "august"@[2] == 'g' && "august"@[3] == 'u' && "august"@[4] == 's' && "august"@[5] == 't',
        "september"@.len() == 9 && "september"@[0] == 's' && "september"@[1] == 'e' && "september"@[2] == 'p' && "september"@[3] == 't' && "september"@[4] == 'e' && "september"@[5] == 'm' && "september"@[6] == 'b' && "september"@[7] == 'e' && "september"@[8] == 'r',
        "october"@.len() == 7 && "october"@[0] == 'o' && "october"@[1] == 'c' && "october"@[2] == 't' && "october"@[3] == 'o' && "october"@[4] == 'b' && "october"@[5] == 'e' && "october"@[6] == 'r',
        "november"@.len() == 8 && "november"@[0] == 'n' && "november"@[1] == 'o' && "november"@[2] == 'v' && "november"@[3] == 'e' && "november"@[4] == 'm' && "november"@[5] == 'b' && "november"@[6] == 'e' && "november"@[7] == 'r',
        "december"@.len() == 8 && "december"@[0] == 'd' && "december"@[1] == 'e' && "december"@[2] == 'c' && "december"@[3] == 'e' && "december"@[4] == 'm' && "december"@[5] == 'b' && "december"@[6] == 'e' && "december"@[7] == 'r',
{
    reveal_strlit("01");
    reveal_strlit("02");
    reveal_strlit("03");
    reveal_strlit("04");
    reveal_strlit("05");
    reveal_strlit("06");
    reveal_strlit("07");
    reveal_strlit("08");
    reveal_strlit("09");
    reveal_strlit("10");
    reveal_strlit("11");
    reveal_strlit("12");
    reveal_strlit("jan");
    reveal_strlit("feb");
    reveal_strlit("mar");
    reveal_strlit("apr");
    reveal_strlit("may");
    reveal_strlit("jun");
    reveal_strlit("jul");
    reveal_strlit("aug");
    reveal_strlit("sep");
    reveal_strlit("oct");
    reveal_strlit("nov");
    reveal_strlit("dec");
    reveal_strlit("january");
    reveal_strlit("february");
    reveal_strlit("march");
    reveal_strlit("april");
    reveal_strlit("june");
    reveal_strlit("july");
    reveal_strlit("august");
    reveal_strlit("september");
    reveal_strlit("october");
    reveal_strlit("november");
    reveal_strlit("december");
}

/// Each numeric code looks up to its own month.
pub proof fn lemma_numeric_lookup(m: Months)
    ensures
        month_of_spelling(month_num_seq(m)) == Some(m),
{
    lemma_lexicon_chars();
    match m {
        Months::Jan => assert(month_of_spelling(month_num_seq(m)) == Some(m)),
        Months::Feb => assert(month_of_spelling(month_num_seq(m)) == Some(m)),
        Months::Mar => assert(month_of_spelling(month_num_seq(m)) == Some(m)),
        Months::Apr => assert(month_of_spelling(month_num_seq(m)) == Some(m)),
        Months::May => assert(month_of_spelling(month_num_seq(m)) == Some(m)),
        Months::Jun => assert(month_of_spelling(month_num_seq(m)) == Some(m)),
        Months::Jul => assert(month_of_spelling(month_num_seq(m)) == Some(m)),
        Months::Aug => assert(month_of_spelling(month_num_seq(m)) == Some(m)),
        Months::Sep => assert(month_of_spelling(month_num_seq(m)) == Some(m)),
        Months::Oct => assert(month_of_spelling(month_num_seq(m)) == Some(m)),
        Months::Nov => assert(month_of_spelling(month_num_seq(m)) == Some(m)),
        Months::Dec => assert(month_of_spelling(month_num_seq(m)) == Some(m)),
    }
}

/// Each abbreviation looks up to its own month.
pub proof fn lemma_abbrev_lookup(m: Months)
    ensures
        month_of_spelling(month_abbrev_seq(m)) == Some(m),
{
    lemma_lexicon_chars();
    match m {
        Months::Jan => assert(month_of_spelling(month_abbrev_seq(m)) == Some(m)),
        Months::Feb => assert(month_of_spelling(month_abbrev_seq(m)) == Some(m)),
        Months::Mar => assert(month_of_spelling(month_abbrev_seq(m)) == Some(m)),
        Months::Apr => assert(month_of_spelling(month_abbrev_seq(m)) == Some(m)),
        Months::May => assert(month_of_spelling(month_abbrev_seq(m)) == Some(m)),
        Months::Jun => assert(month_of_spelling(month_abbrev_seq(m)) == Some(m)),
        Months::Jul => assert(month_of_spelling(month_abbrev_seq(m)) == Some(m)),
        Months::Aug => assert(month_of_spelling(month_abbrev_seq(m)) == Some(m)),
        Months::Sep => assert(month_of_spelling(month_abbrev_seq(m)) == Some(m)),
        Months::Oct => assert(month_of_spelling(month_abbrev_seq(m)) == Some(m)),
        Months::Nov => assert(month_of_spelling(month_abbrev_seq(m)) == Some(m)),
        Months::Dec => assert(month_of_spelling(month_abbrev_seq(m)) == Some(m)),
    }
}

/// Each full name looks up to its own month.
pub proof fn lemma_full_lookup(m: Months)
    ensures
        month_of_spelling(month_full_seq(m)) == Some(m),
{
    lemma_lexicon_chars();
    match m {
        Months::Jan => assert(month_of_spelling(month_full_seq(m)) == Some(m)),
        Months::Feb => assert(month_of_spelling(month_full_seq(m)) == Some(m)),
        Months::Mar => assert(month_of_spelling(month_full_seq(m)) == Some(m)),
        Months::Apr => assert(month_of_spelling(month_full_seq(m)) == Some(m)),
        Months::May => assert(month_of_spelling(month_full_seq(m)) == Some(m)),
        Months::Jun => assert(month_of_spelling(month_full_seq(m)) == Some(m)),
        Months::Jul => assert(month_of_spelling(month_full_seq(m)) == Some(m)),
        Months::Aug => assert(month_of_spelling(month_full_seq(m)) == Some(m)),
        Months::Sep => assert(month_of_spelling(month_full_seq(m)) == Some(m)),
        Months::Oct => assert(month_of_spelling(month_full_seq(m)) == Some(m)),
        Months::Nov => assert(month_of_spelling(month_full_seq(m)) == Some(m)),
        Months::Dec => assert(month_of_spelling(month_full_seq(m)) == Some(m)),
    }
}

/// Every numeric month code is two characters long.
pub proof fn lemma_month_num_len(m: Months)
    ensures
        month_num_seq(m).len() == 2,
{
    lemma_lexicon_chars();
    match m {
        Months::Jan => assert(month_num_seq(m).len() == 2),
        Months::Feb => assert(month_num_seq(m).len() == 2),
        Months::Mar => assert(month_num_seq(m).len() == 2),
        Months::Apr => assert(month_num_seq(m).len() == 2),
        Months::May => assert(month_num_seq(m).len() == 2),
        Months::Jun => assert(month_num_seq(m).len() == 2),
        Months::Jul => assert(month_num_seq(m).len() == 2),
        Months::Aug => assert(month_num_seq(m).len() == 2),
        Months::Sep => assert(month_num_seq(m).len() == 2),
        Months::Oct => assert(month_num_seq(m).len() == 2),
        Months::Nov => assert(month_num_seq(m).len() == 2),
        Months::Dec => assert(month_num_seq(m).len() == 2),
    }
}

/// The abbreviation and the full name of every month are non-empty
/// lower-case words.
pub proof fn lemma_month_words_lower(m: Months)
    ensures
        is_lower_word(month_abbrev_seq(m)),
        is_lower_word(month_full_seq(m)),
        month_abbrev_seq(m).len() == 3,
        3 <= month_full_seq(m).len() <= 9,
{
    lemma_lexicon_chars();
    match m {
        Months::Jan => assert(is_lower_word(month_abbrev_seq(m)) && is_lower_word(month_full_seq(m)) && month_abbrev_seq(m).len() == 3 && 3 <= month_full_seq(m).len() <= 9),
        Months::Feb => assert(is_lower_word(month_abbrev_seq(m)) && is_lower_word(month_full_seq(m)) && month_abbrev_seq(m).len() == 3 && 3 <= month_full_seq(m).len() <= 9),
        Months::Mar => assert(is_lower_word(month_abbrev_seq(m)) && is_lower_word(month_full_seq(m)) && month_abbrev_seq(m).len() == 3 && 3 <= month_full_seq(m).len() <= 9),
        Months::Apr => assert(is_lower_word(month_abbrev_seq(m)) && is_lower_word(month_full_seq(m)) && month_abbrev_seq(m).len() == 3 && 3 <= month_full_seq(m).len() <= 9),
        Months::May => assert(is_lower_word(month_abbrev_seq(m)) && is_lower_word(month_full_seq(m)) && month_abbrev_seq(m).len() == 3 && 3 <= month_full_seq(m).len() <= 9),
        Months::Jun => assert(is_lower_word(month_abbrev_seq(m)) && is_lower_word(month_full_seq(m)) && month_abbrev_seq(m).len() == 3 && 3 <= month_full_seq(m).len() <= 9),
        Months::Jul => assert(is_lower_word(month_abbrev_seq(m)) && is_lower_word(month_full_seq(m)) && month_abbrev_seq(m).len() == 3 && 3 <= month_full_seq(m).len() <= 9),
        Months::Aug => assert(is_lower_word(month_abbrev_seq(m)) && is_lower_word(month_full_seq(m)) && month_abbrev_seq(m).len() == 3 && 3 <= month_full_seq(m).len() <= 9),
        Months::Sep => assert(is_lower_word(month_abbrev_seq(m)) && is_lower_word(month_full_seq(m)) && month_abbrev_seq(m).len() == 3 && 3 <= month_full_seq(m).len() <= 9),
        Months::Oct => assert(is_lower_word(month_abbrev_seq(m)) && is_lower_word(month_full_seq(m)) && month_abbrev_seq(m).len() == 3 && 3 <= month_full_seq(m).len() <= 9),
        Months::Nov => assert(is_lower_word(month_abbrev_seq(m)) && is_lower_word(month_full_seq(m)) && month_abbrev_seq(m).len() == 3 && 3 <= month_full_seq(m).len() <= 9),
        Months::Dec => assert(is_lower_word(month_abbrev_seq(m)) && is_lower_word(month_full_seq(m)) && month_abbrev_seq(m).len() == 3 && 3 <= month_full_seq(m).len() <= 9),
    }
}

} // verus!

use vstd::prelude::*;

use crate::chars::{idx_of, is_ascii_digit, lower_seq};
use crate::error::MyCustomError;
use crate::format_parser::{nodes_view, Node, NodeSpec};
use crate::months::{month_of_spelling, Months};

verus! {

/// The structured record pulled out of one filename stem: an optional
/// four-digit year, an optional month, an optional raw two-character day,
/// and one captured string per hole the source template declares.
pub struct Data {
    pub year: Option<String>,
    pub month: Option<Months>,
    pub day: Option<String>,
    pub holes: Vec<String>,
}

/// The mathematical shape of a `Data` record.
#[verifier::ext_equal]
pub struct DataV {
    pub year: Option<Seq<char>>,
    pub month: Option<Months>,
    pub day: Option<Seq<char>>,
    pub holes: Seq<Seq<char>>,
}

impl View for Data {
    type V = DataV;

    open spec fn view(&self) -> DataV {
        DataV {
            year: match self.year {
                Some(y) => Some(y@),
                None => None,
            },
            month: self.month,
            day: match self.day {
                Some(d) => Some(d@),
                None => None,
            },
            holes: self.holes@.map_values(|h: String| h@),
        }
    }
}

/// A record with nothing captured yet and `n` empty holes.
pub open spec fn empty_data(n: int) -> DataV {
    DataV { year: None, month: None, day: None, holes: Seq::new(n as nat, |i: int| Seq::empty()) }
}

/// The stop character governing a variable-length capture at node `k`:
/// the first character of a following literal; the end-of-input sentinel
/// '$' when the node is last or a hole follows; nothing (an error) when any
/// other node follows or the following literal is empty.
pub open spec fn stop_for(nodes: Seq<NodeSpec>, k: int) -> Option<char> {
    if k + 1 >= nodes.len() {
        Some('$')
    } else {
        match nodes[k + 1] {
            NodeSpec::Literal(t) => if t.len() >= 1 {
                Some(t[0])
            } else {
                None
            },
            NodeSpec::Hole(_) => Some('$'),
            _ => None,
        }
    }
}

/// Extraction of the nodes `k ..` of a compiled template from the stem `s`,
/// the cursor standing at `i`, with `d` captured so far: the completed
/// record, or nothing when the stem does not match the template. After the
/// last node the cursor must stand exactly at the end of the stem. A
/// cursor outside the stem matches nothing.
pub open spec fn extract_at(
    nodes: Seq<NodeSpec>,
    k: int,
    s: Seq<char>,
    i: int,
    d: DataV,
) -> Option<DataV>
    decreases nodes.len() - k,
{
    if k >= nodes.len() {
        if i == s.len() {
            Some(d)
        } else {
            None
        }
    } else if i < 0 || i > s.len() {
        None
    } else {
        match nodes[k] {
            NodeSpec::Year => if i + 4 <= s.len() && is_ascii_digit(s[i]) && is_ascii_digit(
                s[i + 1],
            ) && is_ascii_digit(s[i + 2]) && is_ascii_digit(s[i + 3]) {
                extract_at(
                    nodes,
                    k + 1,
                    s,
                    i + 4,
                    DataV { year: Some(s.subrange(i, i + 4)), ..d },
                )
            } else {
                None
            },
            NodeSpec::YearShort => if i + 2 <= s.len() && is_ascii_digit(s[i]) && is_ascii_digit(
                s[i + 1],
            ) {
                extract_at(
                    nodes,
                    k + 1,
                    s,
                    i + 2,
                    DataV { year: Some(seq!['2', '0'] + s.subrange(i, i + 2)), ..d },
                )
            } else {
                None
            },
            NodeSpec::FebNum => if i + 2 <= s.len() {
                match month_of_spelling(s.subrange(i, i + 2)) {
                    Some(m) => extract_at(nodes, k + 1, s, i + 2, DataV { month: Some(m), ..d }),
                    None => None,
                }
            } else {
                None
            },
            NodeSpec::Feb | NodeSpec::FebCaps | NodeSpec::FebAllCaps => if i + 3 <= s.len() {
                match month_of_spelling(s.subrange(i, i + 3)) {
                    Some(m) => extract_at(nodes, k + 1, s, i + 3, DataV { month: Some(m), ..d }),
                    None => None,
                }
            } else {
                None
            },
            NodeSpec::February | NodeSpec::FebruaryCaps | NodeSpec::FebruaryAllCaps => match
                stop_for(nodes, k) {
                Some(c) => {
                    let j = idx_of(s, i, c);
                    match month_of_spelling(lower_seq(s.subrange(i, j))) {
                        Some(m) => extract_at(nodes, k + 1, s, j, DataV { month: Some(m), ..d }),
                        None => None,
                    }
                },
                None => None,
            },
            NodeSpec::Day => if i + 2 <= s.len() {
                extract_at(nodes, k + 1, s, i + 2, DataV { day: Some(s.subrange(i, i + 2)), ..d })
            } else {
                None
            },
            NodeSpec::Literal(t) => if t.len() >= 1 && i + t.len() <= s.len() {
                extract_at(nodes, k + 1, s, i + t.len() as int, d)
            } else {
                None
            },
            NodeSpec::Hole(h) => match stop_for(nodes, k) {
                Some(c) => {
                    let j = idx_of(s, i, c);
                    if j == s.len() && c != '$' {
                        None
                    } else if h >= d.holes.len() {
                        None
                    } else {
                        extract_at(
                            nodes,
                            k + 1,
                            s,
                            j,
                            DataV { holes: d.holes.update(h as int, s.subrange(i, j)), ..d },
                        )
                    }
                },
                None => None,
            },
        }
    }
}

/// The field extractor: walks a compiled source template over a filename
/// stem, consuming characters left to right with no backtracking.
pub struct FileNameParser<'b> {
    pub name: &'b str,
    pub pos: usize,
    pub d: Data,
}

impl<'b> FileNameParser<'b> {
    /// A parser over the stem `s` with nothing captured and `num_holes`
    /// empty holes.
    pub fn new(s: &'b str, num_holes: usize) -> (r: FileNameParser<'b>)
        ensures
            r.name@ == s@,
            r.pos == 0,
            r.d@ == empty_data(num_holes as int),
    {
        let mut holes: Vec<String> = Vec::new();
        let mut i: usize = 0;
        while i < num_holes
            invariant
                0 <= i <= num_holes,
                holes@.len() == i,
                forall|j: int| 0 <= j < i ==> #[trigger] holes@[j]@ == Seq::<char>::empty(),
            decreases num_holes - i,
        {
            holes.push(String::new());
            i = i + 1;
        }
        let r = FileNameParser { name: s, pos: 0, d: Data { year: None, month: None, day: None, holes } };
        proof {
            assert(r.d@.holes =~= empty_data(num_holes as int).holes);
            assert(r.d@ =~= empty_data(num_holes as int));
        }
        r
    }

    /// Extracts the record for `template_nodes` from the stem. On success
    /// the record stands in `self.d`; when the stem does not match the
    /// template the result is an error and no record is produced.
    pub fn parse(&mut self, template_nodes: &Vec<Node>) -> (r: Result<(), MyCustomError>)
        ensures
            final(self).name == old(self).name,
            match extract_at(
                nodes_view(template_nodes@),
                0,
                old(self).name@,
                old(self).pos as int,
                old(self).d@,
            ) {
                Some(dv) => r is Ok && final(self).d@ == dv,
                None => r matches Err(MyCustomError::Default(_)),
            },
    {
        let ghost nv = nodes_view(template_nodes@);
        let ghost s = self.name@;
        let n_nodes = template_nodes.len();
        let n = self.name.unicode_len();
        if self.pos > n {
            // The cursor of a freshly built parser stands at 0; a cursor
            // past the end can never match.
            return Err(
                MyCustomError::Default(String::from_str("filename does not match template")),
            );
        }
        let mut k: usize = 0;
        while k < n_nodes
            invariant
                nv == nodes_view(template_nodes@),
                n_nodes == template_nodes@.len(),
                n == s.len(),
                self.name@ == s,
                self.name == old(self).name,
                0 <= k <= n_nodes,
                0 <= self.pos <= n,
                extract_at(nv, 0, s, old(self).pos as int, old(self).d@) == extract_at(
                    nv,
                    k as int,
                    s,
                    self.pos as int,
                    self.d@,
                ),
            decreases n_nodes - k,
        {
            proof {
                assert(nv[k as int] == template_nodes@[k as int]@);
                if k + 1 < n_nodes {
                    assert(nv[k as int + 1] == template_nodes@[k as int + 1]@);
                }
            }
            let node = &template_nodes[k];
            match node {
                Node::Year => {
                    self.parse_year(4)?;
                },
                Node::YearShort => {
                    self.parse_year(2)?;
                },
                Node::FebNum => {
                    self.parse_month(2)?;
                },
                Node::Feb => {
                    self.parse_month(3)?;
                },
                Node::FebAllCaps => {
                    self.parse_month(3)?;
                },
                Node::FebCaps => {
                    self.parse_month(3)?;
                },
                Node::February | Node::FebruaryAllCaps | Node::FebruaryCaps => {
                    let stop = match Self::stop_char(template_nodes, k) {
                        Some(c) => c,
                        None => {
                            return Err(
                                MyCustomError::Default(
                                    String::from_str("node cannot provide a stop character"),
                                ),
                            );
                        },
                    };
                    let ghost p = self.pos as int;
                    proof {
                        crate::chars::lemma_idx_of(s, p, stop);
                    }
                    self.parse_month_flex(stop)?;
                },
                Node::Day => {
                    self.parse_day()?;
                },
                Node::Hole(h) => {
                    let stop = match Self::stop_char(template_nodes, k) {
                        Some(c) => c,
                        None => {
                            return Err(
                                MyCustomError::Default(
                                    String::from_str("node cannot provide a stop character"),
                                ),
                            );
                        },
                    };
                    let hh = *h;
                    let ghost p = self.pos as int;
                    proof {
                        crate::chars::lemma_idx_of(s, p, stop);
                    }
                    self.parse_hole(hh, stop)?;
                },
                Node::Literal(l) => {
                    let lit: &str = l.as_str();
                    self.parse_literal(lit)?;
                },
            }
            k = k + 1;
        }
        if self.pos == n {
            Ok(())
        } else {
            Err(MyCustomError::Default(String::from_str("filename does not match template")))
        }
    }

    /// The stop character for the variable-length node at `k`: the first
    /// character of the next literal, the sentinel '$' when the node is
    /// last or a hole follows, nothing otherwise.
    fn stop_char(template_nodes: &Vec<Node>, k: usize) -> (r: Option<char>)
        requires
            k < template_nodes@.len(),
        ensures
            r == stop_for(nodes_view(template_nodes@), k as int),
    {
        proof {
            if k + 1 < template_nodes@.len() {
                assert(nodes_view(template_nodes@)[k as int + 1] == template_nodes@[k as int
                    + 1]@);
            }
        }
        let len = template_nodes.len();
        if k + 1 >= len {
            Some('$')
        } else {
            let next = &template_nodes[k + 1];
            match next {
                Node::Literal(t) => {
                    let ts: &str = t.as_str();
                    if ts.unicode_len() >= 1 {
                        Some(ts.get_char(0))
                    } else {
                        None
                    }
                },
                Node::Hole(_) => Some('$'),
                _ => None,
            }
        }
    }

    /// A year of `w` digits: four stored as they stand, two prefixed with
    /// "20" (the fixed twenty-first-century assumption of short years).
    fn parse_year(&mut self, w: u32) -> (r: Result<(), MyCustomError>)
        requires
            w == 2 || w == 4,
            old(self).pos <= old(self).name@.len(),
        ensures
            final(self).name == old(self).name,
            final(self).d@.month == old(self).d@.month,
            final(self).d@.day == old(self).d@.day,
            final(self).d@.holes == old(self).d@.holes,
            ({
                let s = old(self).name@;
                let p = old(self).pos as int;
                match r {
                    Ok(_) => {
                        &&& p + w <= s.len()
                        &&& forall|q: int| p <= q < p + w ==> is_ascii_digit(#[trigger] s[q])
                        &&& final(self).pos == old(self).pos + w
                        &&& final(self).d@.year == Some(
                            if w == 4 {
                                s.subrange(p, p + 4)
                            } else {
                                seq!['2', '0'] + s.subrange(p, p + 2)
                            },
                        )
                    },
                    Err(e) => {
                        &&& !(p + w <= s.len() && (forall|q: int|
                            p <= q < p + w ==> is_ascii_digit(#[trigger] s[q])))
                        &&& e matches MyCustomError::Default(_)
                    },
                }
            }),
    {
        let ghost s = self.name@;
        let ghost p = self.pos as int;
        let n = self.name.unicode_len();
        let wu = w as usize;
        if n - self.pos < wu {
            return Err(
                MyCustomError::Default(
                    String::from_str(
                        "template does not match string. Most likely, the template contains too many placeholders",
                    ),
                ),
            );
        }
        let mut q: usize = 0;
        while q < wu
            invariant
                n == s.len(),
                self.name == old(self).name,
                self.name@ == s,
                self.pos == old(self).pos,
                self.pos as int == p,
                self.d == old(self).d,
                wu == w,
                p + wu <= n,
                0 <= q <= wu,
                forall|t: int| p <= t < p + q ==> is_ascii_digit(#[trigger] s[t]),
            decreases wu - q,
        {
            let c = self.name.get_char(self.pos + q);
            if !crate::chars::digit_check(c) {
                return Err(
                    MyCustomError::Default(
                        String::from_str("character can not be converted to a numeric"),
                    ),
                );
            }
            q = q + 1;
        }
        if wu == 4 {
            let y = self.name.substring_char(self.pos, self.pos + 4).to_owned();
            self.d.year = Some(y);
        } else {
            let mut y = String::from_str("20");
            y.append(self.name.substring_char(self.pos, self.pos + 2));
            proof {
                reveal_strlit("20");
                assert("20"@ =~= seq!['2', '0']);
            }
            self.d.year = Some(y);
        }
        self.pos = self.pos + wu;
        Ok(())
    }

    /// A fixed-width month spelling of `w` raw characters, looked up
    /// case-sensitively in the lexicon.
    fn parse_month(&mut self, w: u32) -> (r: Result<(), MyCustomError>)
        requires
            w == 2 || w == 3,
            old(self).pos <= old(self).name@.len(),
        ensures
            final(self).name == old(self).name,
            final(self).d@.year == old(self).d@.year,
            final(self).d@.day == old(self).d@.day,
            final(self).d@.holes == old(self).d@.holes,
            ({
                let s = old(self).name@;
                let p = old(self).pos as int;
                match r {
                    Ok(_) => {
                        &&& p + w <= s.len()
                        &&& month_of_spelling(s.subrange(p, p + w)) is Some
                        &&& final(self).d@.month == month_of_spelling(s.subrange(p, p + w))
                        &&& final(self).pos == old(self).pos + w
                    },
                    Err(e) => {
                        &&& !(p + w <= s.len() && month_of_spelling(s.subrange(p, p + w)) is Some)
                        &&& e matches MyCustomError::Default(_)
                    },
                }
            }),
    {
        let n = self.name.unicode_len();
        let wu = w as usize;
        if n - self.pos < wu {
            return Err(MyCustomError::Default(String::from_str("This should not happen")));
        }
        let frag = self.name.substring_char(self.pos, self.pos + wu);
        match crate::months::month_from_spelling(frag) {
            Some(m) => {
                self.d.month = Some(m);
                self.pos = self.pos + wu;
                Ok(())
            },
            None => Err(MyCustomError::Default(String::from_str("unknown month"))),
        }
    }

    /// A variable-length month word: characters up to the stop character
    /// (or the end of the stem), lower-cased and looked up in the lexicon.
    fn parse_month_flex(&mut self, stop: char) -> (r: Result<(), MyCustomError>)
        requires
            old(self).pos <= old(self).name@.len(),
        ensures
            final(self).name == old(self).name,
            final(self).d@.year == old(self).d@.year,
            final(self).d@.day == old(self).d@.day,
            final(self).d@.holes == old(self).d@.holes,
            ({
                let s = old(self).name@;
                let p = old(self).pos as int;
                let j = idx_of(s, p, stop);
                match r {
                    Ok(_) => {
                        &&& month_of_spelling(lower_seq(s.subrange(p, j))) is Some
                        &&& final(self).d@.month == month_of_spelling(lower_seq(s.subrange(p, j)))
                        &&& final(self).pos == j
                    },
                    Err(e) => {
                        &&& month_of_spelling(lower_seq(s.subrange(p, j))) is None
                        &&& e matches MyCustomError::Default(_)
                    },
                }
            }),
    {
        let ghost s = self.name@;
        let ghost p = self.pos as int;
        let n = self.name.unicode_len();
        let mut j = self.pos;
        while j < n && self.name.get_char(j) != stop
            invariant
                n == s.len(),
                self.name == old(self).name,
                self.name@ == s,
                self.pos == old(self).pos,
                self.pos as int == p,
                self.d == old(self).d,
                0 <= p <= j as int <= n,
                forall|t: int| p <= t < j as int ==> #[trigger] s[t] != stop,
            decreases n - j,
        {
            j = j + 1;
        }
        proof {
            crate::chars::lemma_idx_of_eq(s, p, j as int, stop);
        }
        let frag = self.name.substring_char(self.pos, j);
        match crate::months::month_from_folded(frag) {
            Some(m) => {
                self.d.month = Some(m);
                self.pos = j;
                Ok(())
            },
            None => Err(MyCustomError::Default(String::from_str("unknown month"))),
        }
    }

    /// The day: two raw characters, stored unvalidated.
    fn parse_day(&mut self) -> (r: Result<(), MyCustomError>)
        requires
            old(self).pos <= old(self).name@.len(),
        ensures
            final(self).name == old(self).name,
            final(self).d@.year == old(self).d@.year,
            final(self).d@.month == old(self).d@.month,
            final(self).d@.holes == old(self).d@.holes,
            ({
                let s = old(self).name@;
                let p = old(self).pos as int;
                match r {
                    Ok(_) => {
                        &&& p + 2 <= s.len()
                        &&& final(self).d@.day == Some(s.subrange(p, p + 2))
                        &&& final(self).pos == old(self).pos + 2
                    },
                    Err(e) => {
                        &&& p + 2 > s.len()
                        &&& e matches MyCustomError::Default(_)
                    },
                }
            }),
    {
        let n = self.name.unicode_len();
        if n - self.pos < 2 {
            return Err(MyCustomError::Default(String::from_str("This should not happen")));
        }
        let d = self.name.substring_char(self.pos, self.pos + 2).to_owned();
        self.d.day = Some(d);
        self.pos = self.pos + 2;
        Ok(())
    }

    /// A literal of the template: the cursor advances by the literal's
    /// character count without comparing the characters themselves — a
    /// deliberate "don't-care" match of literal positions.
    fn parse_literal(&mut self, lit: &str) -> (r: Result<(), MyCustomError>)
        requires
            old(self).pos <= old(self).name@.len(),
        ensures
            final(self).name == old(self).name,
            final(self).d@ == old(self).d@,
            ({
                let s = old(self).name@;
                let p = old(self).pos as int;
                match r {
                    Ok(_) => {
                        &&& lit@.len() >= 1
                        &&& p + lit@.len() <= s.len()
                        &&& final(self).pos == old(self).pos + lit@.len()
                    },
                    Err(e) => {
                        &&& !(lit@.len() >= 1 && p + lit@.len() <= s.len())
                        &&& e matches MyCustomError::Default(_)
                    },
                }
            }),
    {
        let n = self.name.unicode_len();
        let w = lit.unicode_len();
        if w == 0 {
            return Err(MyCustomError::Default(String::from_str("empty literal")));
        }
        if n - self.pos < w {
            return Err(
                MyCustomError::Default(String::from_str("filename does not match template")),
            );
        }
        self.pos = self.pos + w;
        Ok(())
    }

    /// A hole: characters up to the stop character are stored at the
    /// hole's declared index. Running out of input is a mismatch unless the
    /// stop character is the end-of-input sentinel.
    fn parse_hole(&mut self, h: u32, stop: char) -> (r: Result<(), MyCustomError>)
        requires
            old(self).pos <= old(self).name@.len(),
        ensures
            final(self).name == old(self).name,
            final(self).d@.year == old(self).d@.year,
            final(self).d@.month == old(self).d@.month,
            final(self).d@.day == old(self).d@.day,
            ({
                let s = old(self).name@;
                let p = old(self).pos as int;
                let j = idx_of(s, p, stop);
                match r {
                    Ok(_) => {
                        &&& !(j == s.len() && stop != '$')
                        &&& (h as int) < old(self).d@.holes.len()
                        &&& final(self).d@.holes == old(self).d@.holes.update(
                            h as int,
                            s.subrange(p, j),
                        )
                        &&& final(self).pos == j
                    },
                    Err(e) => {
                        &&& ((j == s.len() && stop != '$') || (h as int) >= old(
                            self,
                        ).d@.holes.len())
                        &&& e matches MyCustomError::Default(_)
                    },
                }
            }),
    {
        let ghost s = self.name@;
        let ghost p = self.pos as int;
        let n = self.name.unicode_len();
        let mut j = self.pos;
        while j < n && self.name.get_char(j) != stop
            invariant
                n == s.len(),
                self.name == old(self).name,
                self.name@ == s,
                self.pos == old(self).pos,
                self.pos as int == p,
                self.d == old(self).d,
                0 <= p <= j as int <= n,
                forall|t: int| p <= t < j as int ==> #[trigger] s[t] != stop,
            decreases n - j,
        {
            j = j + 1;
        }
        proof {
            crate::chars::lemma_idx_of_eq(s, p, j as int, stop);
        }
        if j == n && stop != '$' {
            return Err(MyCustomError::Default(String::from_str("could not parse hole")));
        }
        let hu = h as usize;
        if hu >= self.d.holes.len() {
            return Err(
                MyCustomError::Default(String::from_str("hole index out of range")),
            );
        }
        let captured = self.name.substring_char(self.pos, j).to_owned();
        let ghost prev_holes = self.d.holes@;
        self.d.holes.set(hu, captured);
        proof {
            assert(self.d.holes@.map_values(|x: String| x@) =~= prev_holes.map_values(
                |x: String| x@,
            ).update(h as int, s.subrange(p, j as int)));
        }
        self.pos = j;
        Ok(())
    }
}

} // verus!

use vstd::prelude::*;

use crate::chars::{is_ascii_digit, matches_ci};
use crate::error::MyCustomError;

verus! {

/// One compiled token of a template.
#[derive(PartialEq, Eq, Debug, Clone)]
pub enum Node {
    Hole(u32),
    Year,
    YearShort,
    Day,
    Literal(String),
    // Month.
    Feb,
    FebCaps,
    FebAllCaps,
    FebNum,
    February,
    FebruaryCaps,
    FebruaryAllCaps,
}

/// The mathematical shape of a `Node`: the literal text as a sequence.
pub enum NodeSpec {
    Hole(u32),
    Year,
    YearShort,
    Day,
    Literal(Seq<char>),
    Feb,
    FebCaps,
    FebAllCaps,
    FebNum,
    February,
    FebruaryCaps,
    FebruaryAllCaps,
}

impl View for Node {
    type V = NodeSpec;

    open spec fn view(&self) -> NodeSpec {
        match self {
            Node::Hole(i) => NodeSpec::Hole(*i),
            Node::Year => NodeSpec::Year,
            Node::YearShort => NodeSpec::YearShort,
            Node::Day => NodeSpec::Day,
            Node::Literal(s) => NodeSpec::Literal(s@),
            Node::Feb => NodeSpec::Feb,
            Node::FebCaps => NodeSpec::FebCaps,
            Node::FebAllCaps => NodeSpec::FebAllCaps,
            Node::FebNum => NodeSpec::FebNum,
            Node::February => NodeSpec::February,
            Node::FebruaryCaps => NodeSpec::FebruaryCaps,
            Node::FebruaryAllCaps => NodeSpec::FebruaryAllCaps,
        }
    }
}

/// The sequence of token shapes of a compiled node list.
pub open spec fn nodes_view(ns: Seq<Node>) -> Seq<NodeSpec> {
    ns.map_values(|n: Node| n@)
}

/// The characters that begin a template keyword.
pub open spec fn is_keyword(c: char) -> bool {
    c == '%' || c == '0' || c == '2' || c == 'F' || c == 'f'
}

/// Exec mirror of `is_keyword`.
pub fn is_keyword_char(c: char) -> (r: bool)
    ensures
        r == is_keyword(c),
{
    c == '%' || c == '0' || c == '2' || c == 'F' || c == 'f'
}

/// The numeric value of an ASCII digit.
pub open spec fn digit_val(c: char) -> u32 {
    (c as u32 - 48) as u32
}

/// The end of the literal run that starts at `i`: the first position at or
/// after `i` holding a keyword character, or the end of the input.
pub open spec fn lit_end(s: Seq<char>, i: int) -> int
    decreases s.len() - i,
    when 0 <= i <= s.len()
{
    if i >= s.len() {
        s.len() as int
    } else if is_keyword(s[i]) {
        i
    } else {
        lit_end(s, i + 1)
    }
}

pub proof fn lemma_lit_end(s: Seq<char>, i: int)
    requires
        0 <= i <= s.len(),
    ensures
        i <= lit_end(s, i) <= s.len(),
        forall|j: int| i <= j < lit_end(s, i) ==> !is_keyword(#[trigger] s[j]),
        lit_end(s, i) < s.len() ==> is_keyword(s[lit_end(s, i)]),
        i < s.len() && !is_keyword(s[i]) ==> lit_end(s, i) > i,
    decreases s.len() - i,
{
    if i < s.len() && !is_keyword(s[i]) {
        lemma_lit_end(s, i + 1);
    }
}

/// `lit_end` is pinned down by the properties the scanning loop establishes.
pub proof fn lemma_lit_end_eq(s: Seq<char>, i: int, j: int)
    requires
        0 <= i <= j <= s.len(),
        forall|k: int| i <= k < j ==> !is_keyword(#[trigger] s[k]),
        j < s.len() ==> is_keyword(s[j]),
    ensures
        lit_end(s, i) == j,
    decreases j - i,
{
    if i < j {
        lemma_lit_end_eq(s, i + 1, j);
    }
}

/// The "feb" prefix matches case-insensitively at `i`.
pub open spec fn feb_ok(s: Seq<char>, i: int) -> bool {
    &&& i + 3 <= s.len()
    &&& matches_ci(s[i], 'f')
    &&& matches_ci(s[i + 1], 'e')
    &&& matches_ci(s[i + 2], 'b')
}

/// The "ruary" continuation matches case-insensitively at `i + 3`.
pub open spec fn ruary_ok(s: Seq<char>, i: int) -> bool {
    &&& i + 8 <= s.len()
    &&& matches_ci(s[i + 3], 'r')
    &&& matches_ci(s[i + 4], 'u')
    &&& matches_ci(s[i + 5], 'a')
    &&& matches_ci(s[i + 6], 'r')
    &&& matches_ci(s[i + 7], 'y')
}

/// The abbreviation token for the case style observed over "feb" at `i`:
/// every letter upper-case, only the first, or neither.
pub open spec fn abbrev_style(s: Seq<char>, i: int) -> NodeSpec {
    if s[i] == 'F' && s[i + 1] == 'E' && s[i + 2] == 'B' {
        NodeSpec::FebAllCaps
    } else if s[i] == 'F' {
        NodeSpec::FebCaps
    } else {
        NodeSpec::Feb
    }
}

/// The full-word token for the case style observed over "february" at `i`.
pub open spec fn full_style(s: Seq<char>, i: int) -> NodeSpec {
    if s[i] == 'F' && s[i + 1] == 'E' && s[i + 2] == 'B' && s[i + 3] == 'R' && s[i + 4] == 'U'
        && s[i + 5] == 'A' && s[i + 6] == 'R' && s[i + 7] == 'Y' {
        NodeSpec::FebruaryAllCaps
    } else if s[i] == 'F' {
        NodeSpec::FebruaryCaps
    } else {
        NodeSpec::February
    }
}

/// One month-word scan starting at the `f`/`F` in position `i`: the token it
/// produces and the position after it, or nothing on a malformed month word.
/// "feb" alone at the end of the input is malformed, as is a partial match of
/// "ruary" after its first letter.
pub open spec fn month_step(s: Seq<char>, i: int) -> Option<(NodeSpec, int)> {
    if !feb_ok(s, i) {
        None
    } else if i + 3 == s.len() {
        None
    } else if !matches_ci(s[i + 3], 'r') {
        Some((abbrev_style(s, i), i + 3))
    } else if ruary_ok(s, i) {
        Some((full_style(s, i), i + 8))
    } else {
        None
    }
}

/// Prepends a token to a compilation result, keeping failure.
pub open spec fn cons_node(n: NodeSpec, rest: Option<Seq<NodeSpec>>) -> Option<Seq<NodeSpec>> {
    match rest {
        Some(t) => Some(seq![n] + t),
        None => None,
    }
}

/// Scanning of a format string from position `i`: the token sequence it
/// compiles to, or nothing on a malformed template.
pub open spec fn compile_from(s: Seq<char>, i: int) -> Option<Seq<NodeSpec>>
    decreases s.len() - i,
    when 0 <= i <= s.len()
    via compile_from_dec
{
    if i >= s.len() {
        Some(Seq::empty())
    } else if s[i] == '%' {
        if i + 2 <= s.len() && is_ascii_digit(s[i + 1]) {
            cons_node(NodeSpec::Hole(digit_val(s[i + 1])), compile_from(s, i + 2))
        } else {
            None
        }
    } else if s[i] == '0' {
        if i + 2 <= s.len() && s[i + 1] == '3' {
            cons_node(NodeSpec::YearShort, compile_from(s, i + 2))
        } else if i + 2 <= s.len() && s[i + 1] == '2' {
            cons_node(NodeSpec::FebNum, compile_from(s, i + 2))
        } else if i + 2 <= s.len() && s[i + 1] == '1' {
            cons_node(NodeSpec::Day, compile_from(s, i + 2))
        } else {
            None
        }
    } else if s[i] == '2' {
        if i + 4 <= s.len() && s[i + 1] == '0' && s[i + 2] == '0' && s[i + 3] == '3' {
            cons_node(NodeSpec::Year, compile_from(s, i + 4))
        } else {
            None
        }
    } else if s[i] == 'f' || s[i] == 'F' {
        match month_step(s, i) {
            Some((n, j)) => cons_node(n, compile_from(s, j)),
            None => None,
        }
    } else {
        cons_node(
            NodeSpec::Literal(s.subrange(i, lit_end(s, i))),
            compile_from(s, lit_end(s, i)),
        )
    }
}

#[via_fn]
proof fn compile_from_dec(s: Seq<char>, i: int) {
    if 0 <= i <= s.len() && i < s.len() {
        lemma_lit_end(s, i);
    }
}

/// The number of hole tokens in a token sequence.
pub open spec fn num_holes(ns: Seq<NodeSpec>) -> int
    decreases ns.len(),
{
    if ns.len() == 0 {
        0
    } else {
        (match ns[0] {
            NodeSpec::Hole(_) => 1int,
            _ => 0int,
        }) + num_holes(ns.drop_first())
    }
}

/// The sum of the hole indices in a token sequence.
pub open spec fn sum_holes(ns: Seq<NodeSpec>) -> int
    decreases ns.len(),
{
    if ns.len() == 0 {
        0
    } else {
        (match ns[0] {
            NodeSpec::Hole(d) => d as int,
            _ => 0int,
        }) + sum_holes(ns.drop_first())
    }
}

/// The hole-numbering identity: with `c` holes, their indices sum to
/// `c * (c - 1) / 2`, which every numbering `0 .. c-1` satisfies.
pub open spec fn holes_ok(ns: Seq<NodeSpec>) -> bool {
    num_holes(ns) == 0 || sum_holes(ns) == num_holes(ns) * (num_holes(ns) - 1) / 2
}

/// Full compilation of a format string: the scan must succeed and the hole
/// numbering identity must hold.
pub open spec fn compile(s: Seq<char>) -> Option<Seq<NodeSpec>> {
    match compile_from(s, 0) {
        Some(ns) => if holes_ok(ns) {
            Some(ns)
        } else {
            None
        },
        None => None,
    }
}

/// The number of '%' characters among the first `i` characters of `s`.
pub open spec fn count_pct(s: Seq<char>, i: int) -> int
    decreases i,
{
    if i <= 0 {
        0
    } else {
        count_pct(s, i - 1) + if s[i - 1] == '%' {
            1int
        } else {
            0int
        }
    }
}

proof fn lemma_view_push(ns: Seq<Node>, n: Node)
    ensures
        nodes_view(ns.push(n)) == nodes_view(ns).push(n@),
{
    assert(nodes_view(ns.push(n)) =~= nodes_view(ns).push(n@));
}

proof fn lemma_opt_append_cons(done: Seq<NodeSpec>, n: NodeSpec, rest: Option<Seq<NodeSpec>>)
    ensures
        opt_append(done, cons_node(n, rest)) == opt_append(done.push(n), rest),
{
    match rest {
        Some(t) => {
            assert(done + (seq![n] + t) =~= done.push(n) + t);
        },
        None => {},
    }
}

/// Appends an already-compiled prefix to the result for the rest of the
/// input, keeping failure.
pub open spec fn opt_append(done: Seq<NodeSpec>, rest: Option<Seq<NodeSpec>>) -> Option<
    Seq<NodeSpec>,
> {
    match rest {
        Some(t) => Some(done + t),
        None => None,
    }
}

proof fn lemma_holes_push(ns: Seq<NodeSpec>, n: NodeSpec)
    ensures
        num_holes(ns.push(n)) == num_holes(ns) + (match n {
            NodeSpec::Hole(_) => 1int,
            _ => 0int,
        }),
        sum_holes(ns.push(n)) == sum_holes(ns) + (match n {
            NodeSpec::Hole(d) => d as int,
            _ => 0int,
        }),
    decreases ns.len(),
{
    if ns.len() == 0 {
        assert(ns.push(n).drop_first() =~= Seq::<NodeSpec>::empty());
        assert(ns =~= Seq::<NodeSpec>::empty());
    } else {
        assert(ns.push(n).drop_first() =~= ns.drop_first().push(n));
        lemma_holes_push(ns.drop_first(), n);
    }
}

/// The template compiler: scans a format string into a token list and checks
/// the hole numbering.
pub struct FormatParser<'a> {
    pub input: &'a str,
    pub pos: usize,
    pub nodes: Vec<Node>,
    pub holes: usize,
    /// Running sum of the hole indices seen so far (for the numbering check).
    pub sum: u128,
    /// Running count of the holes seen so far.
    pub count: u128,
}

impl<'a> FormatParser<'a> {
    /// A parser that has consumed nothing and compiled nothing yet.
    pub open spec fn fresh(&self) -> bool {
        &&& self.pos == 0
        &&& self.nodes@.len() == 0
        &&& self.sum == 0
        &&& self.count == 0
    }

    /// The running hole counters agree with the compiled prefix.
    pub open spec fn counters_ok(&self) -> bool {
        &&& self.sum == sum_holes(nodes_view(self.nodes@))
        &&& self.count == num_holes(nodes_view(self.nodes@))
        &&& self.count <= self.pos
    }

    pub fn new(s: &'a str) -> (r: FormatParser<'a>)
        ensures
            r.input@ == s@,
            r.fresh(),
            r.holes == count_pct(s@, s@.len() as int),
    {
        let n = s.unicode_len();
        let mut holes: usize = 0;
        let mut i: usize = 0;
        while i < n
            invariant
                n == s@.len(),
                0 <= i <= n,
                holes == count_pct(s@, i as int),
                holes <= i,
            decreases n - i,
        {
            if s.get_char(i) == '%' {
                holes = holes + 1;
            }
            i = i + 1;
        }
        FormatParser { input: s, pos: 0, nodes: Vec::new(), holes, sum: 0, count: 0 }
    }

    /// Compiles the format string. On success the compiled tokens stand in
    /// `self.nodes`; on a malformed template or a bad hole numbering the
    /// result is a `ParseError` and the compilation as a whole is rejected.
    pub fn parse(&mut self) -> (r: Result<(), MyCustomError>)
        requires
            old(self).fresh(),
        ensures
            final(self).input == old(self).input,
            final(self).holes == old(self).holes,
            match compile(old(self).input@) {
                Some(ns) => r is Ok && nodes_view(final(self).nodes@) == ns,
                None => r matches Err(MyCustomError::ParseError(_)),
            },
    {
        let ghost s = self.input@;
        let n = self.input.unicode_len();
        while self.pos < n
            invariant
                n == s.len(),
                self.input@ == s,
                self.input == old(self).input,
                0 <= self.pos <= n,
                self.holes == old(self).holes,
                self.counters_ok(),
                self.sum <= 9 * self.count,
                compile_from(s, 0) == opt_append(
                    nodes_view(self.nodes@),
                    compile_from(s, self.pos as int),
                ),
            decreases n - self.pos,
        {
            let ghost prev = self.nodes@;
            let ghost done = nodes_view(prev);
            let ghost p = self.pos as int;
            let c = self.input.get_char(self.pos);
            if c == '%' {
                self.parse_hole()?;
                proof {
                    let node = self.nodes@.last();
                    lemma_view_push(prev, node);
                    lemma_opt_append_cons(done, node@, compile_from(s, p + 2));
                    lemma_holes_push(done, node@);
                }
            } else if c == '0' {
                self.parse_date()?;
                proof {
                    let node = self.nodes@.last();
                    lemma_view_push(prev, node);
                    lemma_opt_append_cons(done, node@, compile_from(s, p + 2));
                    lemma_holes_push(done, node@);
                }
            } else if c == 'F' || c == 'f' {
                self.parse_month()?;
                proof {
                    let node = self.nodes@.last();
                    lemma_view_push(prev, node);
                    lemma_opt_append_cons(done, node@, compile_from(s, self.pos as int));
                    lemma_holes_push(done, node@);
                }
            } else if c == '2' {
                self.parse_year_long()?;
                proof {
                    let node = self.nodes@.last();
                    lemma_view_push(prev, node);
                    lemma_opt_append_cons(done, node@, compile_from(s, p + 4));
                    lemma_holes_push(done, node@);
                }
            } else {
                self.parse_literal();
                proof {
                    let node = self.nodes@.last();
                    lemma_lit_end(s, p);
                    lemma_view_push(prev, node);
                    lemma_opt_append_cons(done, node@, compile_from(s, lit_end(s, p)));
                    lemma_holes_push(done, node@);
                }
            }
        }
        let ghost done = nodes_view(self.nodes@);
        proof {
            assert(compile_from(s, self.pos as int) == Some(Seq::<NodeSpec>::empty()));
            assert(done + Seq::<NodeSpec>::empty() =~= done);
        }
        if self.count > 0 {
            let c = self.count;
            proof {
                assert(c as int <= usize::MAX as int);
                assert((c as int) * (c as int - 1) <= (0xffff_ffff_ffff_ffffu128 as int) * (
                0xffff_ffff_ffff_fffeu128 as int)) by (nonlinear_arith)
                    requires
                        0 < c as int <= 0xffff_ffff_ffff_ffffu128 as int,
                ;
            }
            let expect = c * (c - 1) / 2;
            if self.sum != expect {
                return Err(
                    MyCustomError::ParseError(
                        String::from_str("holes have to start at 0 and must not have gaps"),
                    ),
                );
            }
        }
        Ok(())
    }

    /// One hole token: '%' followed by one decimal digit.
    fn parse_hole(&mut self) -> (r: Result<(), MyCustomError>)
        requires
            old(self).pos < old(self).input@.len(),
            old(self).input@[old(self).pos as int] == '%',
            old(self).sum <= 9 * old(self).count,
            old(self).count <= old(self).pos,
        ensures
            final(self).input == old(self).input,
            final(self).holes == old(self).holes,
            ({
                let s = old(self).input@;
                let p = old(self).pos as int;
                match r {
                    Ok(_) => {
                        &&& p + 2 <= s.len() && is_ascii_digit(s[p + 1])
                        &&& final(self).nodes@ == old(self).nodes@.push(Node::Hole(digit_val(s[p + 1])))
                        &&& final(self).pos == old(self).pos + 2
                        &&& final(self).sum == old(self).sum + digit_val(s[p + 1])
                        &&& final(self).count == old(self).count + 1
                    },
                    Err(e) => {
                        &&& !(p + 2 <= s.len() && is_ascii_digit(s[p + 1]))
                        &&& e matches MyCustomError::ParseError(_)
                    },
                }
            }),
    {
        let n = self.input.unicode_len();
        if n - self.pos < 2 {
            return Err(
                MyCustomError::ParseError(
                    String::from_str("could not parse hole: the format ended too early"),
                ),
            );
        }
        let c = self.input.get_char(self.pos + 1);
        if !crate::chars::digit_check(c) {
            return Err(
                MyCustomError::ParseError(String::from_str("could not parse hole: not a digit")),
            );
        }
        let d: u32 = c as u32 - 48;
        self.nodes.push(Node::Hole(d));
        self.sum = self.sum + d as u128;
        self.count = self.count + 1;
        self.pos = self.pos + 2;
        Ok(())
    }

    /// One date code: '0' followed by '3' (short year), '2' (numeric month)
    /// or '1' (day).
    fn parse_date(&mut self) -> (r: Result<(), MyCustomError>)
        requires
            old(self).pos < old(self).input@.len(),
            old(self).input@[old(self).pos as int] == '0',
        ensures
            final(self).input == old(self).input,
            final(self).holes == old(self).holes,
            final(self).sum == old(self).sum,
            final(self).count == old(self).count,
            ({
                let s = old(self).input@;
                let p = old(self).pos as int;
                match r {
                    Ok(_) => {
                        &&& p + 2 <= s.len()
                        &&& (s[p + 1] == '3' || s[p + 1] == '2' || s[p + 1] == '1')
                        &&& final(self).nodes@ == old(self).nodes@.push(
                            if s[p + 1] == '3' {
                                Node::YearShort
                            } else if s[p + 1] == '2' {
                                Node::FebNum
                            } else {
                                Node::Day
                            },
                        )
                        &&& final(self).pos == old(self).pos + 2
                    },
                    Err(e) => {
                        &&& !(p + 2 <= s.len() && (s[p + 1] == '3' || s[p + 1] == '2' || s[p + 1]
                            == '1'))
                        &&& e matches MyCustomError::ParseError(_)
                    },
                }
            }),
    {
        let n = self.input.unicode_len();
        if n - self.pos < 2 {
            return Err(
                MyCustomError::ParseError(
                    String::from_str("could not parse date code: the format ended too early"),
                ),
            );
        }
        let c = self.input.get_char(self.pos + 1);
        if c == '3' {
            self.nodes.push(Node::YearShort);
        } else if c == '2' {
            self.nodes.push(Node::FebNum);
        } else if c == '1' {
            self.nodes.push(Node::Day);
        } else {
            return Err(MyCustomError::ParseError(String::from_str("unknown date code")));
        }
        self.pos = self.pos + 2;
        Ok(())
    }

    /// The long year keyword: the exact literal "2003".
    fn parse_year_long(&mut self) -> (r: Result<(), MyCustomError>)
        requires
            old(self).pos < old(self).input@.len(),
            old(self).input@[old(self).pos as int] == '2',
        ensures
            final(self).input == old(self).input,
            final(self).holes == old(self).holes,
            final(self).sum == old(self).sum,
            final(self).count == old(self).count,
            ({
                let s = old(self).input@;
                let p = old(self).pos as int;
                match r {
                    Ok(_) => {
                        &&& p + 4 <= s.len() && s[p + 1] == '0' && s[p + 2] == '0' && s[p + 3]
                            == '3'
                        &&& final(self).nodes@ == old(self).nodes@.push(Node::Year)
                        &&& final(self).pos == old(self).pos + 4
                    },
                    Err(e) => {
                        &&& !(p + 4 <= s.len() && s[p + 1] == '0' && s[p + 2] == '0' && s[p + 3]
                            == '3')
                        &&& e matches MyCustomError::ParseError(_)
                    },
                }
            }),
    {
        let n = self.input.unicode_len();
        if n - self.pos < 4 {
            return Err(
                MyCustomError::ParseError(
                    String::from_str("invalid long year. The format ended too early"),
                ),
            );
        }
        if self.input.get_char(self.pos + 1) == '0' && self.input.get_char(self.pos + 2) == '0'
            && self.input.get_char(self.pos + 3) == '3' {
            self.nodes.push(Node::Year);
            self.pos = self.pos + 4;
            Ok(())
        } else {
            Err(MyCustomError::ParseError(String::from_str("invalid long year")))
        }
    }

    /// One month word: "feb" then optionally "ruary", case-insensitively,
    /// classified into lower, title or all-caps style.
    fn parse_month(&mut self) -> (r: Result<(), MyCustomError>)
        requires
            old(self).pos < old(self).input@.len(),
            old(self).input@[old(self).pos as int] == 'f' || old(self).input@[old(
                self,
            ).pos as int] == 'F',
        ensures
            final(self).input == old(self).input,
            final(self).holes == old(self).holes,
            final(self).sum == old(self).sum,
            final(self).count == old(self).count,
            ({
                let s = old(self).input@;
                let p = old(self).pos as int;
                match r {
                    Ok(_) => {
                        &&& month_step(s, p) is Some
                        &&& final(self).pos == month_step(s, p).unwrap().1
                        &&& final(self).nodes@.len() == old(self).nodes@.len() + 1
                        &&& final(self).nodes@ == old(self).nodes@.push(final(self).nodes@.last())
                        &&& final(self).nodes@.last()@ == month_step(s, p).unwrap().0
                    },
                    Err(e) => {
                        &&& month_step(s, p) is None
                        &&& e matches MyCustomError::ParseError(_)
                    },
                }
            }),
    {
        let n = self.input.unicode_len();
        if n - self.pos < 3 {
            return Err(MyCustomError::ParseError(String::from_str("could not parse month word")));
        }
        let c0 = self.input.get_char(self.pos);
        let c1 = self.input.get_char(self.pos + 1);
        let c2 = self.input.get_char(self.pos + 2);
        if !(crate::chars::char_ci(c0, 'f') && crate::chars::char_ci(c1, 'e')
            && crate::chars::char_ci(c2, 'b')) {
            return Err(MyCustomError::ParseError(String::from_str("could not parse month word")));
        }
        if n - self.pos == 3 {
            return Err(
                MyCustomError::ParseError(
                    String::from_str("could not parse month word: the format ended too early"),
                ),
            );
        }
        let c3 = self.input.get_char(self.pos + 3);
        if !crate::chars::char_ci(c3, 'r') {
            let node = if c0 == 'F' && c1 == 'E' && c2 == 'B' {
                Node::FebAllCaps
            } else if c0 == 'F' {
                Node::FebCaps
            } else {
                Node::Feb
            };
            self.nodes.push(node);
            self.pos = self.pos + 3;
            return Ok(());
        }
        if n - self.pos < 8 {
            return Err(
                MyCustomError::ParseError(
                    String::from_str("could not parse month word: the format ended too early"),
                ),
            );
        }
        let c4 = self.input.get_char(self.pos + 4);
        let c5 = self.input.get_char(self.pos + 5);
        let c6 = self.input.get_char(self.pos + 6);
        let c7 = self.input.get_char(self.pos + 7);
        if !(crate::chars::char_ci(c4, 'u') && crate::chars::char_ci(c5, 'a')
            && crate::chars::char_ci(c6, 'r') && crate::chars::char_ci(c7, 'y')) {
            return Err(MyCustomError::ParseError(String::from_str("could not parse month word")));
        }
        let node = if c0 == 'F' && c1 == 'E' && c2 == 'B' && c3 == 'R' && c4 == 'U' && c5 == 'A'
            && c6 == 'R' && c7 == 'Y' {
            Node::FebruaryAllCaps
        } else if c0 == 'F' {
            Node::FebruaryCaps
        } else {
            Node::February
        };
        self.nodes.push(node);
        self.pos = self.pos + 8;
        Ok(())
    }

    /// One literal run: everything up to the next keyword character.
    fn parse_literal(&mut self)
        requires
            old(self).pos < old(self).input@.len(),
            !is_keyword(old(self).input@[old(self).pos as int]),
        ensures
            final(self).input == old(self).input,
            final(self).holes == old(self).holes,
            final(self).sum == old(self).sum,
            final(self).count == old(self).count,
            ({
                let s = old(self).input@;
                let p = old(self).pos as int;
                {
                    &&& final(self).pos == lit_end(s, p)
                    &&& final(self).nodes@.len() == old(self).nodes@.len() + 1
                    &&& final(self).nodes@ == old(self).nodes@.push(final(self).nodes@.last())
                    &&& final(self).nodes@.last()@ == NodeSpec::Literal(s.subrange(p, lit_end(s, p)))
                }
            }),
    {
        let ghost s = self.input@;
        let ghost p = self.pos as int;
        let n = self.input.unicode_len();
        let mut j = self.pos;
        while j < n && !is_keyword_char(self.input.get_char(j))
            invariant
                n == s.len(),
                self.input@ == s,
                0 <= p <= j as int <= n,
                forall|k: int| p <= k < j as int ==> !is_keyword(#[trigger] s[k]),
            decreases n - j,
        {
            j = j + 1;
        }
        proof {
            lemma_lit_end_eq(s, p, j as int);
        }
        let run = self.input.substring_char(self.pos, j).to_owned();
        self.nodes.push(Node::Literal(run));
        self.pos = j;
    }
}

} // verus!

use vstd::prelude::*;

use crate::chars::{idx_of, lower_char, lower_seq};
use crate::filename_parser::{extract_at, stop_for, DataV};
use crate::format_parser::NodeSpec;
use crate::months::month_of_spelling;
use crate::render::{node_renderable, render_from, render_node, render_seq};

verus! {

// ---------------------------------------------------------------------------
// Which fields the nodes of a template write during extraction.
// ---------------------------------------------------------------------------

/// The node stores a month when it matches.
pub open spec fn writes_month(n: NodeSpec) -> bool {
    match n {
        NodeSpec::FebNum | NodeSpec::Feb | NodeSpec::FebCaps | NodeSpec::FebAllCaps
            | NodeSpec::February | NodeSpec::FebruaryCaps | NodeSpec::FebruaryAllCaps => true,
        _ => false,
    }
}

/// Some node at `k` or later writes the month.
pub open spec fn has_month_writer(nodes: Seq<NodeSpec>, k: int) -> bool
    decreases nodes.len() - k,
{
    if k < 0 || k >= nodes.len() {
        false
    } else {
        writes_month(nodes[k]) || has_month_writer(nodes, k + 1)
    }
}

/// Some node at `k` or later is the four-digit year.
pub open spec fn has_year_long(nodes: Seq<NodeSpec>, k: int) -> bool
    decreases nodes.len() - k,
{
    if k < 0 || k >= nodes.len() {
        false
    } else {
        nodes[k] is Year || has_year_long(nodes, k + 1)
    }
}

/// Some node at `k` or later is the two-digit year.
pub open spec fn has_year_short(nodes: Seq<NodeSpec>, k: int) -> bool
    decreases nodes.len() - k,
{
    if k < 0 || k >= nodes.len() {
        false
    } else {
        nodes[k] is YearShort || has_year_short(nodes, k + 1)
    }
}

/// Some node at `k` or later is the day.
pub open spec fn has_day(nodes: Seq<NodeSpec>, k: int) -> bool
    decreases nodes.len() - k,
{
    if k < 0 || k >= nodes.len() {
        false
    } else {
        nodes[k] is Day || has_day(nodes, k + 1)
    }
}

/// Some node at `k` or later is the hole with index `h`.
pub open spec fn has_hole(nodes: Seq<NodeSpec>, k: int, h: u32) -> bool
    decreases nodes.len() - k,
{
    if k < 0 || k >= nodes.len() {
        false
    } else {
        nodes[k] == NodeSpec::Hole(h) || has_hole(nodes, k + 1, h)
    }
}

/// The year a short-year capture of the last two digits of `d`'s year
/// reconstructs: the fixed "20" century prefix plus those two digits.
pub open spec fn twenty_year(d: DataV) -> Seq<char> {
    seq!['2', '0'] + d.year.unwrap().subrange(2, 4)
}

/// What extraction writes at one node, given that every capture recovers
/// the text the node rendered from `d`.
pub open spec fn apply_node(n: NodeSpec, a: DataV, d: DataV) -> DataV {
    match n {
        NodeSpec::Year => DataV { year: d.year, ..a },
        NodeSpec::YearShort => DataV { year: Some(twenty_year(d)), ..a },
        NodeSpec::FebNum | NodeSpec::Feb | NodeSpec::FebCaps | NodeSpec::FebAllCaps
            | NodeSpec::February | NodeSpec::FebruaryCaps | NodeSpec::FebruaryAllCaps => DataV {
            month: d.month,
            ..a
        },
        NodeSpec::Day => DataV { day: d.day, ..a },
        NodeSpec::Hole(h) => DataV { holes: a.holes.update(h as int, d.holes[h as int]), ..a },
        NodeSpec::Literal(_) => a,
    }
}

/// The record extraction of the nodes `k ..` ends with, starting from `a`,
/// when every capture recovers what the node rendered from `d`.
pub open spec fn final_data(nodes: Seq<NodeSpec>, k: int, a: DataV, d: DataV) -> DataV
    decreases nodes.len() - k,
{
    if k < 0 || k >= nodes.len() {
        a
    } else {
        final_data(nodes, k + 1, apply_node(nodes[k], a, d), d)
    }
}

// ---------------------------------------------------------------------------
// When a template and a record round-trip.
// ---------------------------------------------------------------------------

/// The year of `d` is a four-digit buffer of ASCII decimal digits.
pub open spec fn year_digits(d: DataV) -> bool {
    &&& d.year is Some
    &&& d.year.unwrap().len() == 4
    &&& forall|i: int|
        0 <= i < 4 ==> crate::chars::is_ascii_digit(#[trigger] d.year.unwrap()[i])
}

/// A variable-length capture at `k` recovers exactly what the node
/// rendered: the node is last and its text is free of the end-of-input
/// sentinel '$', or a non-empty literal follows and the text is free of
/// that literal's first character.
pub open spec fn flex_stop_ok(nodes: Seq<NodeSpec>, k: int, d: DataV) -> bool {
    if k + 1 >= nodes.len() {
        !render_node(nodes[k], d).contains('$')
    } else {
        match nodes[k + 1] {
            NodeSpec::Literal(t) => t.len() >= 1 && !render_node(nodes[k], d).contains(t[0]),
            _ => false,
        }
    }
}

/// The node at `k` extracts from its own rendering exactly what it was
/// rendered from.
pub open spec fn rt_node_ok(nodes: Seq<NodeSpec>, k: int, d: DataV) -> bool {
    &&& node_renderable(nodes[k], d)
    &&& match nodes[k] {
        NodeSpec::Year | NodeSpec::YearShort => year_digits(d),
        NodeSpec::FebCaps | NodeSpec::FebAllCaps => false,
        NodeSpec::February | NodeSpec::FebruaryCaps | NodeSpec::FebruaryAllCaps => flex_stop_ok(
            nodes,
            k,
            d,
        ),
        NodeSpec::Hole(_) => flex_stop_ok(nodes, k, d),
        NodeSpec::Day => d.day.unwrap().len() == 2,
        NodeSpec::Literal(t) => t.len() >= 1,
        NodeSpec::FebNum | NodeSpec::Feb => true,
    }
}

/// A template whose long year renders the stored year back: when the
/// template holds both year widths, the stored year must carry the "20"
/// century prefix the short year reconstructs.
pub open spec fn years_compatible(nodes: Seq<NodeSpec>, d: DataV) -> bool {
    has_year_long(nodes, 0) && has_year_short(nodes, 0) ==> (d.year is Some
        && d.year.unwrap().len() == 4 && d.year.unwrap()[0] == '2' && d.year.unwrap()[1] == '0')
}

/// The inputs on which a template round-trips: every node renders text its
/// own extraction rule recovers, no title- or upper-case abbreviation
/// stands in the template (their rendering is case-mangled but their
/// extraction is case-sensitive), and the two year widths agree.
pub open spec fn round_trip_safe(nodes: Seq<NodeSpec>, d: DataV) -> bool {
    &&& forall|k: int| 0 <= k < nodes.len() ==> #[trigger] rt_node_ok(nodes, k, d)
    &&& years_compatible(nodes, d)
}

// ---------------------------------------------------------------------------
// Splitting a rendered suffix at a piece boundary.
// ---------------------------------------------------------------------------

proof fn lemma_split_suffix(s: Seq<char>, i: int, x: Seq<char>, y: Seq<char>)
    requires
        0 <= i <= s.len(),
        s.subrange(i, s.len() as int) == x + y,
    ensures
        i + x.len() <= s.len(),
        s.subrange(i, i + x.len()) == x,
        s.subrange(i + x.len(), s.len() as int) == y,
        forall|u: int| 0 <= u < x.len() ==> s[i + u] == x[u],
{
    assert(s.subrange(i, s.len() as int).len() == x.len() + y.len());
    assert forall|u: int| 0 <= u < x.len() implies s[i + u] == x[u] by {
        assert(s.subrange(i, s.len() as int)[u] == (x + y)[u]);
        assert(s.subrange(i, s.len() as int)[u] == s[i + u]);
        assert((x + y)[u] == x[u]);
    }
    assert forall|t: int| 0 <= t < y.len() implies s[i + x.len() + t] == y[t] by {
        assert(s.subrange(i, s.len() as int)[x.len() + t] == (x + y)[x.len() + t]);
        assert((x + y)[x.len() + t] == y[t]);
    }
    assert(s.subrange(i, i + x.len()) =~= x);
    assert(s.subrange(i + x.len(), s.len() as int) =~= y);
}

// ---------------------------------------------------------------------------
// Extraction of a rendered stem recovers the final record.
// ---------------------------------------------------------------------------

proof fn lemma_extract_render(nodes: Seq<NodeSpec>, k: int, s: Seq<char>, i: int, a: DataV, d: DataV)
    requires
        0 <= k <= nodes.len(),
        0 <= i <= s.len(),
        forall|j: int| k <= j < nodes.len() ==> #[trigger] rt_node_ok(nodes, j, d),
        a.holes.len() == d.holes.len(),
        s.subrange(i, s.len() as int) == render_from(nodes, k, d),
    ensures
        extract_at(nodes, k, s, i, a) == Some(final_data(nodes, k, a, d)),
    decreases nodes.len() - k,
{
    if k >= nodes.len() {
        assert(render_from(nodes, k, d) =~= Seq::<char>::empty());
        assert(s.subrange(i, s.len() as int).len() == 0);
        assert(i == s.len());
    } else {
        assert(rt_node_ok(nodes, k, d));
        let piece = render_node(nodes[k], d);
        let rest = render_from(nodes, k + 1, d);
        assert(render_from(nodes, k, d) == piece + rest);
        lemma_split_suffix(s, i, piece, rest);
        let i2 = i + piece.len();
        let a2 = apply_node(nodes[k], a, d);
        assert(a2.holes.len() == d.holes.len());
        match nodes[k] {
            NodeSpec::Year => {
                assert(piece.len() == 4);
                assert(s[i] == piece[0] && s[i + 1] == piece[1] && s[i + 2] == piece[2] && s[i
                    + 3] == piece[3]);
                assert(s.subrange(i, i + 4) =~= piece);
                lemma_extract_render(nodes, k + 1, s, i2, a2, d);
                assert(extract_at(nodes, k, s, i, a) == Some(final_data(nodes, k, a, d)));
            },
            NodeSpec::YearShort => {
                assert(piece == d.year.unwrap().subrange(2, 4));
                assert(piece.len() == 2);
                assert(piece[0] == d.year.unwrap()[2] && piece[1] == d.year.unwrap()[3]);
                assert(s[i] == piece[0] && s[i + 1] == piece[1]);
                assert(s.subrange(i, i + 2) =~= piece);
                assert(seq!['2', '0'] + s.subrange(i, i + 2) == twenty_year(d));
                lemma_extract_render(nodes, k + 1, s, i2, a2, d);
                assert(extract_at(nodes, k, s, i, a) == Some(final_data(nodes, k, a, d)));
            },
            NodeSpec::FebNum => {
                let m = d.month.unwrap();
                crate::months::lemma_month_num_len(m);
                assert(s.subrange(i, i + 2) =~= piece);
                crate::months::lemma_numeric_lookup(m);
                lemma_extract_render(nodes, k + 1, s, i2, a2, d);
                assert(extract_at(nodes, k, s, i, a) == Some(final_data(nodes, k, a, d)));
            },
            NodeSpec::Feb => {
                let m = d.month.unwrap();
                crate::months::lemma_month_words_lower(m);
                assert(s.subrange(i, i + 3) =~= piece);
                crate::months::lemma_abbrev_lookup(m);
                lemma_extract_render(nodes, k + 1, s, i2, a2, d);
                assert(extract_at(nodes, k, s, i, a) == Some(final_data(nodes, k, a, d)));
            },
            NodeSpec::FebCaps => {
                assert(false);
            },
            NodeSpec::FebAllCaps => {
                assert(false);
            },
            NodeSpec::February | NodeSpec::FebruaryCaps | NodeSpec::FebruaryAllCaps => {
                let m = d.month.unwrap();
                let w = crate::months::month_full_seq(m);
                crate::months::lemma_month_words_lower(m);
                crate::chars::lemma_lower_word_folds(w);
                assert(lower_seq(piece) == w);
                crate::months::lemma_full_lookup(m);
                let c = stop_for(nodes, k).unwrap();
                assert forall|t: int| i <= t < i2 implies #[trigger] s[t] != c by {
                    assert(s[t] == piece[t - i]);
                    assert(!piece.contains(c));
                }
                if k + 1 >= nodes.len() {
                    assert(rest =~= Seq::<char>::empty());
                    assert(i2 == s.len());
                    crate::chars::lemma_idx_of_eq(s, i, i2, c);
                } else {
                    assert(rest[0] == c);
                    assert(s[i2] == rest[0]);
                    crate::chars::lemma_idx_of_eq(s, i, i2, c);
                }
                assert(idx_of(s, i, c) == i2);
                assert(s.subrange(i, i2) == piece);
                lemma_extract_render(nodes, k + 1, s, i2, a2, d);
                assert(extract_at(nodes, k, s, i, a) == Some(final_data(nodes, k, a, d)));
            },
            NodeSpec::Day => {
                assert(s.subrange(i, i + 2) =~= piece);
                lemma_extract_render(nodes, k + 1, s, i2, a2, d);
                assert(extract_at(nodes, k, s, i, a) == Some(final_data(nodes, k, a, d)));
            },
            NodeSpec::Literal(t) => {
                lemma_extract_render(nodes, k + 1, s, i2, a2, d);
                assert(extract_at(nodes, k, s, i, a) == Some(final_data(nodes, k, a, d)));
            },
            NodeSpec::Hole(h) => {
                let c = stop_for(nodes, k).unwrap();
                assert forall|t: int| i <= t < i2 implies #[trigger] s[t] != c by {
                    assert(s[t] == piece[t - i]);
                    assert(!piece.contains(c));
                }
                if k + 1 >= nodes.len() {
                    assert(rest =~= Seq::<char>::empty());
                    assert(i2 == s.len());
                    crate::chars::lemma_idx_of_eq(s, i, i2, c);
                    assert(c == '$');
                } else {
                    assert(rest[0] == c);
                    assert(s[i2] == rest[0]);
                    crate::chars::lemma_idx_of_eq(s, i, i2, c);
                    assert(idx_of(s, i, c) < s.len());
                }
                assert(idx_of(s, i, c) == i2);
                assert(s.subrange(i, i2) == piece);
                assert((h as int) < a.holes.len());
                lemma_extract_render(nodes, k + 1, s, i2, a2, d);
                assert(extract_at(nodes, k, s, i, a) == Some(final_data(nodes, k, a, d)));
            },
        }
    }
}

// ---------------------------------------------------------------------------
// The fields of the final record.
// ---------------------------------------------------------------------------

proof fn lemma_final_fields(nodes: Seq<NodeSpec>, k: int, a: DataV, d: DataV)
    requires
        0 <= k <= nodes.len(),
        a.holes.len() == d.holes.len(),
        forall|j: int| k <= j < nodes.len() ==> #[trigger] rt_node_ok(nodes, j, d),
    ensures
        final_data(nodes, k, a, d).holes.len() == a.holes.len(),
        final_data(nodes, k, a, d).month == if has_month_writer(nodes, k) {
            d.month
        } else {
            a.month
        },
        final_data(nodes, k, a, d).day == if has_day(nodes, k) {
            d.day
        } else {
            a.day
        },
        !(has_year_long(nodes, k) || has_year_short(nodes, k)) ==> final_data(
            nodes,
            k,
            a,
            d,
        ).year == a.year,
        has_year_long(nodes, k) || has_year_short(nodes, k) ==> (final_data(nodes, k, a, d).year
            == d.year || final_data(nodes, k, a, d).year == Some(twenty_year(d))),
        has_year_long(nodes, k) && !has_year_short(nodes, k) ==> final_data(nodes, k, a, d).year
            == d.year,
        forall|h: u32|
            (h as int) < a.holes.len() && #[trigger] has_hole(nodes, k, h) ==> final_data(
                nodes,
                k,
                a,
                d,
            ).holes[h as int] == d.holes[h as int],
        forall|h: u32|
            (h as int) < a.holes.len() && !(#[trigger] has_hole(nodes, k, h)) ==> final_data(
                nodes,
                k,
                a,
                d,
            ).holes[h as int] == a.holes[h as int],
    decreases nodes.len() - k,
{
    if k < nodes.len() {
        assert(rt_node_ok(nodes, k, d));
        let a2 = apply_node(nodes[k], a, d);
        assert(a2.holes.len() == a.holes.len());
        lemma_final_fields(nodes, k + 1, a2, d);
        assert forall|h: u32|
            (h as int) < a.holes.len() implies ((has_hole(nodes, k, h) ==> final_data(
                nodes,
                k,
                a,
                d,
            ).holes[h as int] == d.holes[h as int]) && (!has_hole(nodes, k, h) ==> final_data(
                nodes,
                k,
                a,
                d,
            ).holes[h as int] == a.holes[h as int])) by {
            if has_hole(nodes, k + 1, h) {
            } else {
                match nodes[k] {
                    NodeSpec::Hole(g) => {
                        if g == h {
                        } else {
                            assert(a2.holes[h as int] == a.holes[h as int]);
                        }
                    },
                    _ => {},
                }
            }
        }
    }
}

// ---------------------------------------------------------------------------
// Re-rendering the final record reproduces the first rendering.
// ---------------------------------------------------------------------------

proof fn lemma_writer_reaches_start(nodes: Seq<NodeSpec>, j: int, k: int)
    requires
        0 <= j <= k < nodes.len(),
    ensures
        writes_month(nodes[k]) ==> has_month_writer(nodes, j),
        nodes[k] is Year ==> has_year_long(nodes, j),
        nodes[k] is YearShort ==> has_year_short(nodes, j),
        nodes[k] is Day ==> has_day(nodes, j),
        forall|h: u32| nodes[k] == NodeSpec::Hole(h) ==> #[trigger] has_hole(nodes, j, h),
    decreases k - j,
{
    if j < k {
        lemma_writer_reaches_start(nodes, j + 1, k);
        assert forall|h: u32| nodes[k] == NodeSpec::Hole(h) implies #[trigger] has_hole(
            nodes,
            j,
            h,
        ) by {
            assert(has_hole(nodes, j + 1, h));
        }
    } else {
        assert forall|h: u32| nodes[k] == NodeSpec::Hole(h) implies #[trigger] has_hole(
            nodes,
            j,
            h,
        ) by {
            assert(nodes[j] == NodeSpec::Hole(h));
        }
    }
}

proof fn lemma_render_final(nodes: Seq<NodeSpec>, k: int, d: DataV, f: DataV)
    requires
        0 <= k <= nodes.len(),
        forall|j: int| 0 <= j < nodes.len() ==> #[trigger] rt_node_ok(nodes, j, d),
        years_compatible(nodes, d),
        f.holes.len() == d.holes.len(),
        has_month_writer(nodes, 0) ==> f.month == d.month,
        has_day(nodes, 0) ==> f.day == d.day,
        has_year_long(nodes, 0) || has_year_short(nodes, 0) ==> (f.year == d.year || f.year
            == Some(twenty_year(d))),
        has_year_long(nodes, 0) && !has_year_short(nodes, 0) ==> f.year == d.year,
        forall|h: u32|
            (h as int) < d.holes.len() && #[trigger] has_hole(nodes, 0, h) ==> f.holes[h as int]
                == d.holes[h as int],
    ensures
        render_from(nodes, k, f) == render_from(nodes, k, d),
    decreases nodes.len() - k,
{
    if k < nodes.len() {
        assert(rt_node_ok(nodes, k, d));
        lemma_writer_reaches_start(nodes, 0, k);
        match nodes[k] {
            NodeSpec::Year => {
                if has_year_short(nodes, 0) {
                    assert(twenty_year(d) =~= d.year.unwrap());
                }
                assert(f.year == d.year);
            },
            NodeSpec::YearShort => {
                assert(year_digits(d));
                if f.year == Some(twenty_year(d)) {
                    assert(twenty_year(d).subrange(2, 4) =~= d.year.unwrap().subrange(2, 4));
                }
                assert(f.year.unwrap().subrange(2, 4) == d.year.unwrap().subrange(2, 4));
            },
            NodeSpec::Hole(h) => {
                assert(has_hole(nodes, 0, h));
                assert(f.holes[h as int] == d.holes[h as int]);
            },
            _ => {},
        }
        assert(render_node(nodes[k], f) == render_node(nodes[k], d));
        lemma_render_final(nodes, k + 1, d, f);
    }
}

// ---------------------------------------------------------------------------
// The round-trip law.
// ---------------------------------------------------------------------------

/// Rendering a template from a record and then extracting the rendered
/// text with the same template succeeds, and re-rendering the extracted
/// record reproduces the text exactly. This holds for every template and
/// record in `round_trip_safe`: every node's field is present and
/// well-formed, no title- or upper-case abbreviation token stands in the
/// template, each variable-length capture is bounded by a following
/// literal whose first character its text avoids (or ends the template
/// without the sentinel '$'), and the two year widths agree on the "20"
/// century prefix whenever both occur.
pub proof fn lemma_round_trip(nodes: Seq<NodeSpec>, d: DataV)
    requires
        round_trip_safe(nodes, d),
    ensures
        extract_at(
            nodes,
            0,
            render_seq(nodes, d),
            0,
            crate::filename_parser::empty_data(d.holes.len() as int),
        ) is Some,
        render_seq(
            nodes,
            extract_at(
                nodes,
                0,
                render_seq(nodes, d),
                0,
                crate::filename_parser::empty_data(d.holes.len() as int),
            ).unwrap(),
        ) == render_seq(nodes, d),
{
    let s = render_seq(nodes, d);
    let a0 = crate::filename_parser::empty_data(d.holes.len() as int);
    assert(s.subrange(0, s.len() as int) =~= render_from(nodes, 0, d));
    lemma_extract_render(nodes, 0, s, 0, a0, d);
    let f = final_data(nodes, 0, a0, d);
    lemma_final_fields(nodes, 0, a0, d);
    lemma_render_final(nodes, 0, d, f);
}

// ---------------------------------------------------------------------------
// A stem shorter than the template demands never extracts.
// ---------------------------------------------------------------------------

/// The number of characters the fixed-width nodes of `k ..` demand of a
/// stem; variable-length nodes can match empty text and demand none.
pub open spec fn needed_len(nodes: Seq<NodeSpec>, k: int) -> int
    decreases nodes.len() - k,
{
    if k < 0 || k >= nodes.len() {
        0
    } else {
        (match nodes[k] {
            NodeSpec::Year => 4int,
            NodeSpec::YearShort => 2int,
            NodeSpec::FebNum => 2int,
            NodeSpec::Feb | NodeSpec::FebCaps | NodeSpec::FebAllCaps => 3int,
            NodeSpec::Day => 2int,
            NodeSpec::Literal(t) => t.len() as int,
            _ => 0int,
        }) + needed_len(nodes, k + 1)
    }
}

proof fn lemma_extract_consumes(nodes: Seq<NodeSpec>, k: int, s: Seq<char>, i: int, a: DataV)
    requires
        0 <= k,
        0 <= i,
    ensures
        extract_at(nodes, k, s, i, a) is Some ==> i + needed_len(nodes, k) <= s.len(),
    decreases nodes.len() - k,
{
    if k < nodes.len() && i <= s.len() && extract_at(nodes, k, s, i, a) is Some {
        match nodes[k] {
            NodeSpec::February | NodeSpec::FebruaryCaps | NodeSpec::FebruaryAllCaps => {
                let c = stop_for(nodes, k).unwrap();
                crate::chars::lemma_idx_of(s, i, c);
                let j = idx_of(s, i, c);
                let a2 = DataV {
                    month: Some(month_of_spelling(lower_seq(s.subrange(i, j))).unwrap()),
                    ..a
                };
                lemma_extract_consumes(nodes, k + 1, s, j, a2);
            },
            NodeSpec::Hole(h) => {
                let c = stop_for(nodes, k).unwrap();
                crate::chars::lemma_idx_of(s, i, c);
                let j = idx_of(s, i, c);
                let a2 = DataV { holes: a.holes.update(h as int, s.subrange(i, j)), ..a };
                lemma_extract_consumes(nodes, k + 1, s, j, a2);
            },
            NodeSpec::Year => {
                lemma_extract_consumes(
                    nodes,
                    k + 1,
                    s,
                    i + 4,
                    DataV { year: Some(s.subrange(i, i + 4)), ..a },
                );
            },
            NodeSpec::YearShort => {
                lemma_extract_consumes(
                    nodes,
                    k + 1,
                    s,
                    i + 2,
                    DataV { year: Some(seq!['2', '0'] + s.subrange(i, i + 2)), ..a },
                );
            },
            NodeSpec::FebNum => {
                lemma_extract_consumes(
                    nodes,
                    k + 1,
                    s,
                    i + 2,
                    DataV { month: Some(month_of_spelling(s.subrange(i, i + 2)).unwrap()), ..a },
                );
            },
            NodeSpec::Feb | NodeSpec::FebCaps | NodeSpec::FebAllCaps => {
                lemma_extract_consumes(
                    nodes,
                    k + 1,
                    s,
                    i + 3,
                    DataV { month: Some(month_of_spelling(s.subrange(i, i + 3)).unwrap()), ..a },
                );
            },
            NodeSpec::Day => {
                lemma_extract_consumes(
                    nodes,
                    k + 1,
                    s,
                    i + 2,
                    DataV { day: Some(s.subrange(i, i + 2)), ..a },
                );
            },
            NodeSpec::Literal(t) => {
                lemma_extract_consumes(nodes, k + 1, s, i + t.len() as int, a);
            },
        }
    }
}

/// A stem shorter than the fixed-width nodes of the template demand never
/// extracts: the attempt reports a mismatch, it does not panic.
pub proof fn lemma_short_stem_fails(nodes: Seq<NodeSpec>, s: Seq<char>, a: DataV)
    requires
        s.len() < needed_len(nodes, 0),
    ensures
        extract_at(nodes, 0, s, 0, a) is None,
{
    lemma_extract_consumes(nodes, 0, s, 0, a);
}

// ---------------------------------------------------------------------------
// Month matching in the stem is case-insensitive, whatever the declared
// case style.
// ---------------------------------------------------------------------------

/// Two fragments equal up to ASCII case look up to the same month under
/// the case folding of the flexible month nodes.
pub proof fn lemma_month_fold_case_insensitive(s: Seq<char>, t: Seq<char>)
    requires
        s.len() == t.len(),
        forall|i: int| 0 <= i < s.len() ==> lower_char(#[trigger] s[i]) == lower_char(t[i]),
    ensures
        month_of_spelling(lower_seq(s)) == month_of_spelling(lower_seq(t)),
{
    assert(lower_seq(s) =~= lower_seq(t));
}

proof fn lemma_extract_agree(n1: Seq<NodeSpec>, n2: Seq<NodeSpec>, k: int, s: Seq<char>, i: int, a: DataV)
    requires
        n1.len() == n2.len(),
        forall|j: int| k <= j < n1.len() ==> n1[j] == #[trigger] n2[j],
    ensures
        extract_at(n1, k, s, i, a) == extract_at(n2, k, s, i, a),
    decreases n1.len() - k,
{
    if k < n1.len() {
        assert(n1[k] == n2[k]);
        assert(stop_for(n1, k) == stop_for(n2, k));
        if 0 <= i <= s.len() {
            match n1[k] {
                NodeSpec::Year => {
                    lemma_extract_agree(n1, n2, k + 1, s, i + 4, DataV { year: Some(s.subrange(i, i + 4)), ..a });
                },
                NodeSpec::YearShort => {
                    lemma_extract_agree(n1, n2, k + 1, s, i + 2, DataV { year: Some(seq!['2', '0'] + s.subrange(i, i + 2)), ..a });
                },
                NodeSpec::FebNum => {
                    if i + 2 <= s.len() && month_of_spelling(s.subrange(i, i + 2)) is Some {
                        lemma_extract_agree(n1, n2, k + 1, s, i + 2, DataV { month: month_of_spelling(s.subrange(i, i + 2)), ..a });
                    }
                },
                NodeSpec::Feb | NodeSpec::FebCaps | NodeSpec::FebAllCaps => {
                    if i + 3 <= s.len() && month_of_spelling(s.subrange(i, i + 3)) is Some {
                        lemma_extract_agree(n1, n2, k + 1, s, i + 3, DataV { month: month_of_spelling(s.subrange(i, i + 3)), ..a });
                    }
                },
                NodeSpec::February | NodeSpec::FebruaryCaps | NodeSpec::FebruaryAllCaps => {
                    match stop_for(n1, k) {
                        Some(c) => {
                            let j = idx_of(s, i, c);
                            lemma_extract_agree(n1, n2, k + 1, s, j, DataV { month: month_of_spelling(lower_seq(s.subrange(i, j))), ..a });
                        },
                        None => {},
                    }
                },
                NodeSpec::Day => {
                    lemma_extract_agree(n1, n2, k + 1, s, i + 2, DataV { day: Some(s.subrange(i, i + 2)), ..a });
                },
                NodeSpec::Literal(t) => {
                    lemma_extract_agree(n1, n2, k + 1, s, i + t.len() as int, a);
                },
                NodeSpec::Hole(h) => {
                    match stop_for(n1, k) {
                        Some(c) => {
                            let j = idx_of(s, i, c);
                            lemma_extract_agree(n1, n2, k + 1, s, j, DataV { holes: a.holes.update(h as int, s.subrange(i, j)), ..a });
                        },
                        None => {},
                    }
                },
            }
        }
    }
}

/// The case style a flexible month token declares is irrelevant to
/// extraction: replacing the token at `k` by any of the three full-word
/// styles extracts the same record from every stem.
pub proof fn lemma_flex_style_irrelevant(
    nodes: Seq<NodeSpec>,
    k: int,
    n1: NodeSpec,
    n2: NodeSpec,
    s: Seq<char>,
    i: int,
    a: DataV,
)
    requires
        0 <= k < nodes.len(),
        n1 is February || n1 is FebruaryCaps || n1 is FebruaryAllCaps,
        n2 is February || n2 is FebruaryCaps || n2 is FebruaryAllCaps,
    ensures
        extract_at(nodes.update(k, n1), k, s, i, a) == extract_at(nodes.update(k, n2), k, s, i, a),
{
    let u1 = nodes.update(k, n1);
    let u2 = nodes.update(k, n2);
    assert(stop_for(u1, k) == stop_for(u2, k));
    if 0 <= i <= s.len() {
        match stop_for(u1, k) {
            Some(c) => {
                let j = idx_of(s, i, c);
                lemma_extract_agree(
                    u1,
                    u2,
                    k + 1,
                    s,
                    j,
                    DataV { month: month_of_spelling(lower_seq(s.subrange(i, j))), ..a },
                );
            },
            None => {},
        }
    }
}

// ---------------------------------------------------------------------------
// Structural invariants of the pipeline.
// ---------------------------------------------------------------------------

/// Extraction never changes the number of hole slots: the completed record
/// keeps exactly the hole count it started with, the count the source
/// template declared.
pub proof fn lemma_extract_keeps_hole_count(
    nodes: Seq<NodeSpec>,
    k: int,
    s: Seq<char>,
    i: int,
    a: DataV,
)
    ensures
        extract_at(nodes, k, s, i, a) matches Some(dv) ==> dv.holes.len() == a.holes.len(),
    decreases nodes.len() - k,
{
    if k < nodes.len() && 0 <= i <= s.len() && extract_at(nodes, k, s, i, a) is Some {
        match nodes[k] {
            NodeSpec::Year => {
                lemma_extract_keeps_hole_count(
                    nodes,
                    k + 1,
                    s,
                    i + 4,
                    DataV { year: Some(s.subrange(i, i + 4)), ..a },
                );
            },
            NodeSpec::YearShort => {
                lemma_extract_keeps_hole_count(
                    nodes,
                    k + 1,
                    s,
                    i + 2,
                    DataV { year: Some(seq!['2', '0'] + s.subrange(i, i + 2)), ..a },
                );
            },
            NodeSpec::FebNum => {
                lemma_extract_keeps_hole_count(
                    nodes,
                    k + 1,
                    s,
                    i + 2,
                    DataV { month: month_of_spelling(s.subrange(i, i + 2)), ..a },
                );
            },
            NodeSpec::Feb | NodeSpec::FebCaps | NodeSpec::FebAllCaps => {
                lemma_extract_keeps_hole_count(
                    nodes,
                    k + 1,
                    s,
                    i + 3,
                    DataV { month: month_of_spelling(s.subrange(i, i + 3)), ..a },
                );
            },
            NodeSpec::February | NodeSpec::FebruaryCaps | NodeSpec::FebruaryAllCaps => {
                let c = stop_for(nodes, k).unwrap();
                let j = idx_of(s, i, c);
                lemma_extract_keeps_hole_count(
                    nodes,
                    k + 1,
                    s,
                    j,
                    DataV { month: month_of_spelling(lower_seq(s.subrange(i, j))), ..a },
                );
            },
            NodeSpec::Day => {
                lemma_extract_keeps_hole_count(
                    nodes,
                    k + 1,
                    s,
                    i + 2,
                    DataV { day: Some(s.subrange(i, i + 2)), ..a },
                );
            },
            NodeSpec::Literal(t) => {
                lemma_extract_keeps_hole_count(nodes, k + 1, s, i + t.len() as int, a);
            },
            NodeSpec::Hole(h) => {
                let c = stop_for(nodes, k).unwrap();
                let j = idx_of(s, i, c);
                let a2 = DataV { holes: a.holes.update(h as int, s.subrange(i, j)), ..a };
                assert((h as int) < a.holes.len());
                lemma_extract_keeps_hole_count(nodes, k + 1, s, j, a2);
            },
        }
    }
}

/// Every literal token in a token sequence carries non-empty text.
pub open spec fn literals_nonempty(ns: Seq<NodeSpec>) -> bool {
    forall|k: int|
        0 <= k < ns.len() ==> (#[trigger] ns[k] matches NodeSpec::Literal(t) ==> t.len() >= 1)
}

proof fn lemma_scan_literals_nonempty(s: Seq<char>, i: int)
    requires
        0 <= i <= s.len(),
    ensures
        crate::format_parser::compile_from(s, i) matches Some(ns) ==> literals_nonempty(ns),
    decreases s.len() - i,
{
    if i < s.len() && crate::format_parser::compile_from(s, i) is Some {
        crate::format_parser::lemma_lit_end(s, i);
        let (n, j): (NodeSpec, int) = if s[i] == '%' {
            (NodeSpec::Hole(crate::format_parser::digit_val(s[i + 1])), i + 2)
        } else if s[i] == '0' {
            (
                if s[i + 1] == '3' {
                    NodeSpec::YearShort
                } else if s[i + 1] == '2' {
                    NodeSpec::FebNum
                } else {
                    NodeSpec::Day
                },
                i + 2,
            )
        } else if s[i] == '2' {
            (NodeSpec::Year, i + 4)
        } else if s[i] == 'f' || s[i] == 'F' {
            crate::format_parser::month_step(s, i).unwrap()
        } else {
            (
                NodeSpec::Literal(s.subrange(i, crate::format_parser::lit_end(s, i))),
                crate::format_parser::lit_end(s, i),
            )
        };
        assert(crate::format_parser::compile_from(s, i) == crate::format_parser::cons_node(
            n,
            crate::format_parser::compile_from(s, j),
        ));
        lemma_scan_literals_nonempty(s, j);
        let ns = crate::format_parser::compile_from(s, i).unwrap();
        let tail = crate::format_parser::compile_from(s, j).unwrap();
        assert forall|k: int|
            0 <= k < ns.len() implies (#[trigger] ns[k] matches NodeSpec::Literal(t) ==> t.len()
            >= 1) by {
            if k == 0 {
                assert(ns[0] == n);
            } else {
                assert(ns[k] == tail[k - 1]);
            }
        }
    }
}

/// A compiled template never holds an empty literal: every literal token
/// carries the non-empty run of text it was scanned from.
pub proof fn lemma_compiled_literals_nonempty(s: Seq<char>)
    ensures
        crate::format_parser::compile(s) matches Some(ns) ==> literals_nonempty(ns),
{
    lemma_scan_literals_nonempty(s, 0);
}


/// Characters that are not '%' leave the running '%' count unchanged.
proof fn lemma_count_pct_segment(s: Seq<char>, i: int, j: int)
    requires
        0 <= i <= j <= s.len(),
        forall|t: int| i <= t < j ==> #[trigger] s[t] != '%',
    ensures
        crate::format_parser::count_pct(s, j) == crate::format_parser::count_pct(s, i),
    decreases j - i,
{
    if i < j {
        lemma_count_pct_segment(s, i, j - 1);
    }
}

proof fn lemma_scan_hole_count(s: Seq<char>, i: int)
    requires
        0 <= i <= s.len(),
    ensures
        crate::format_parser::compile_from(s, i) matches Some(ns) ==> crate::format_parser::num_holes(
            ns,
        ) == crate::format_parser::count_pct(s, s.len() as int) - crate::format_parser::count_pct(
            s,
            i,
        ),
    decreases s.len() - i,
{
    if i < s.len() && crate::format_parser::compile_from(s, i) is Some {
        crate::format_parser::lemma_lit_end(s, i);
        let (n, j): (NodeSpec, int) = if s[i] == '%' {
            (NodeSpec::Hole(crate::format_parser::digit_val(s[i + 1])), i + 2)
        } else if s[i] == '0' {
            (
                if s[i + 1] == '3' {
                    NodeSpec::YearShort
                } else if s[i + 1] == '2' {
                    NodeSpec::FebNum
                } else {
                    NodeSpec::Day
                },
                i + 2,
            )
        } else if s[i] == '2' {
            (NodeSpec::Year, i + 4)
        } else if s[i] == 'f' || s[i] == 'F' {
            crate::format_parser::month_step(s, i).unwrap()
        } else {
            (
                NodeSpec::Literal(s.subrange(i, crate::format_parser::lit_end(s, i))),
                crate::format_parser::lit_end(s, i),
            )
        };
        assert(crate::format_parser::compile_from(s, i) == crate::format_parser::cons_node(
            n,
            crate::format_parser::compile_from(s, j),
        ));
        if s[i] == '%' {
            assert(s[i + 1] != '%');
            assert(crate::format_parser::count_pct(s, i + 1) == crate::format_parser::count_pct(
                s,
                i,
            ) + 1);
            assert(crate::format_parser::count_pct(s, i + 2) == crate::format_parser::count_pct(
                s,
                i,
            ) + 1);
        } else {
            assert forall|t: int| i <= t < j implies #[trigger] s[t] != '%' by {
                if s[i] == 'f' || s[i] == 'F' {
                    assert(crate::format_parser::feb_ok(s, i));
                } else if !(s[i] == '0' || s[i] == '2') {
                    crate::format_parser::lemma_lit_end(s, i);
                }
            }
            lemma_count_pct_segment(s, i, j);
        }
        lemma_scan_hole_count(s, j);
        let ns = crate::format_parser::compile_from(s, i).unwrap();
        let tail = crate::format_parser::compile_from(s, j).unwrap();
        assert(ns.drop_first() =~= tail);
        assert(crate::format_parser::num_holes(ns) == (match n {
            NodeSpec::Hole(_) => 1int,
            _ => 0int,
        }) + crate::format_parser::num_holes(tail));
    }
}

/// The '%' count of a format string — the hole count that sizes the
/// extracted record — equals the number of hole tokens in its compiled
/// template.
pub proof fn lemma_declared_holes_match(s: Seq<char>)
    ensures
        crate::format_parser::compile(s) matches Some(ns) ==> crate::format_parser::num_holes(ns)
            == crate::format_parser::count_pct(s, s.len() as int),
{
    lemma_scan_hole_count(s, 0);
}


} // verus!

use vstd::prelude::*;

use convert_case::Casing;

use crate::chars::{is_lower_word, title_seq, upper_seq};
use crate::error::MyCustomError;
use crate::filename_parser::{Data, DataV};
use crate::format_parser::{nodes_view, Node, NodeSpec};
use crate::months::{month_abbrev_seq, month_full_seq, month_num_seq};

verus! {

/// The record holds everything the node needs: a well-formed four-digit
/// year for the year tokens, a month for the month tokens, a day for the
/// day token, and a declared slot for a hole token.
pub open spec fn node_renderable(n: NodeSpec, d: DataV) -> bool {
    match n {
        NodeSpec::Year | NodeSpec::YearShort => d.year is Some && d.year.unwrap().len() == 4,
        NodeSpec::FebNum | NodeSpec::Feb | NodeSpec::FebCaps | NodeSpec::FebAllCaps
            | NodeSpec::February | NodeSpec::FebruaryCaps | NodeSpec::FebruaryAllCaps => d.month
            is Some,
        NodeSpec::Day => d.day is Some,
        NodeSpec::Hole(h) => (h as int) < d.holes.len(),
        NodeSpec::Literal(_) => true,
    }
}

/// The record holds everything the template needs.
pub open spec fn can_render(nodes: Seq<NodeSpec>, d: DataV) -> bool {
    forall|k: int| 0 <= k < nodes.len() ==> node_renderable(#[trigger] nodes[k], d)
}

/// The text one node renders to.
pub open spec fn render_node(n: NodeSpec, d: DataV) -> Seq<char> {
    match n {
        NodeSpec::Year => d.year.unwrap(),
        NodeSpec::YearShort => d.year.unwrap().subrange(2, 4),
        NodeSpec::FebNum => month_num_seq(d.month.unwrap()),
        NodeSpec::Feb => month_abbrev_seq(d.month.unwrap()),
        NodeSpec::FebCaps => title_seq(month_abbrev_seq(d.month.unwrap())),
        NodeSpec::FebAllCaps => upper_seq(month_abbrev_seq(d.month.unwrap())),
        NodeSpec::February => month_full_seq(d.month.unwrap()),
        NodeSpec::FebruaryCaps => title_seq(month_full_seq(d.month.unwrap())),
        NodeSpec::FebruaryAllCaps => upper_seq(month_full_seq(d.month.unwrap())),
        NodeSpec::Day => d.day.unwrap(),
        NodeSpec::Hole(h) => d.holes[h as int],
        NodeSpec::Literal(t) => t,
    }
}

/// The text the nodes `k ..` render to, concatenated in template order.
pub open spec fn render_from(nodes: Seq<NodeSpec>, k: int, d: DataV) -> Seq<char>
    decreases nodes.len() - k,
{
    if k < 0 || k >= nodes.len() {
        Seq::empty()
    } else {
        render_node(nodes[k], d) + render_from(nodes, k + 1, d)
    }
}

/// The text a whole template renders to.
pub open spec fn render_seq(nodes: Seq<NodeSpec>, d: DataV) -> Seq<char> {
    render_from(nodes, 0, d)
}

/// Relies on convert_case's `to_case(Case::Title)`: a non-empty word of
/// ASCII lower-case letters has no boundaries, so it stays one word and
/// comes back with its first letter capitalised and the rest unchanged.
#[verifier::external_body]
fn title_word(s: &str) -> (r: String)
    requires
        s@.len() >= 1,
        is_lower_word(s@),
    ensures
        r@ == title_seq(s@),
{
    s.to_case(convert_case::Case::Title)
}

/// Relies on convert_case's `to_case(Case::Upper)`: a non-empty word of
/// ASCII lower-case letters has no boundaries, so it stays one word and
/// comes back upper-cased.
#[verifier::external_body]
fn upper_word(s: &str) -> (r: String)
    requires
        s@.len() >= 1,
        is_lower_word(s@),
    ensures
        r@ == upper_seq(s@),
{
    s.to_case(convert_case::Case::Upper)
}

/// Renders a compiled target template from an extracted record, appending
/// the text of each node in template order. A node that needs a field the
/// record does not hold makes the whole rendering fail with a
/// `MissingFieldError` naming the field.
pub fn render(nodes: &Vec<Node>, d: &Data) -> (r: Result<String, MyCustomError>)
    ensures
        match r {
            Ok(out) => can_render(nodes_view(nodes@), d@) && out@ == render_seq(
                nodes_view(nodes@),
                d@,
            ),
            Err(e) => !can_render(nodes_view(nodes@), d@) && e matches
                MyCustomError::MissingFieldError(_),
        },
{
    let ghost nv = nodes_view(nodes@);
    let ghost dv = d@;
    let n = nodes.len();
    let mut res = String::new();
    let mut k: usize = 0;
    while k < n
        invariant
            nv == nodes_view(nodes@),
            dv == d@,
            n == nodes@.len(),
            0 <= k <= n,
            forall|j: int| 0 <= j < k ==> node_renderable(#[trigger] nv[j], dv),
            res@ + render_from(nv, k as int, dv) == render_seq(nv, dv),
        decreases n - k,
    {
        proof {
            assert(nv[k as int] == nodes@[k as int]@);
        }
        let ghost res0 = res@;
        let node = &nodes[k];
        match node {
            Node::Year => {
                match &d.year {
                    Some(y) => {
                        if y.as_str().unicode_len() == 4 {
                            res.append(y.as_str());
                        } else {
                            return Err(
                                MyCustomError::MissingFieldError(
                                    String::from_str("year is not a four-digit capture"),
                                ),
                            );
                        }
                    },
                    None => {
                        return Err(
                            MyCustomError::MissingFieldError(
                                String::from_str("the target template needs a year"),
                            ),
                        );
                    },
                }
            },
            Node::YearShort => {
                match &d.year {
                    Some(y) => {
                        if y.as_str().unicode_len() == 4 {
                            res.append(y.as_str().substring_char(2, 4));
                        } else {
                            return Err(
                                MyCustomError::MissingFieldError(
                                    String::from_str("year is not a four-digit capture"),
                                ),
                            );
                        }
                    },
                    None => {
                        return Err(
                            MyCustomError::MissingFieldError(
                                String::from_str("the target template needs a year"),
                            ),
                        );
                    },
                }
            },
            Node::FebNum => {
                match &d.month {
                    Some(m) => res.append(m.numeric()),
                    None => {
                        return Err(
                            MyCustomError::MissingFieldError(
                                String::from_str("the target template needs a month"),
                            ),
                        );
                    },
                }
            },
            Node::Feb => {
                match &d.month {
                    Some(m) => res.append(m.abbrev()),
                    None => {
                        return Err(
                            MyCustomError::MissingFieldError(
                                String::from_str("the target template needs a month"),
                            ),
                        );
                    },
                }
            },
            Node::FebCaps => {
                match &d.month {
                    Some(m) => {
                        proof {
                            crate::months::lemma_month_words_lower(*m);
                        }
                        let w = title_word(m.abbrev());
                        res.append(w.as_str());
                    },
                    None => {
                        return Err(
                            MyCustomError::MissingFieldError(
                                String::from_str("the target template needs a month"),
                            ),
                        );
                    },
                }
            },
            Node::FebAllCaps => {
                match &d.month {
                    Some(m) => {
                        proof {
                            crate::months::lemma_month_words_lower(*m);
                        }
                        let w = upper_word(m.abbrev());
                        res.append(w.as_str());
                    },
                    None => {
                        return Err(
                            MyCustomError::MissingFieldError(
                                String::from_str("the target template needs a month"),
                            ),
                        );
                    },
                }
            },
            Node::February => {
                match &d.month {
                    Some(m) => res.append(m.full_name()),
                    None => {
                        return Err(
                            MyCustomError::MissingFieldError(
                                String::from_str("the target template needs a month"),
                            ),
                        );
                    },
                }
            },
            Node::FebruaryCaps => {
                match &d.month {
                    Some(m) => {
                        proof {
                            crate::months::lemma_month_words_lower(*m);
                        }
                        let w = title_word(m.full_name());
                        res.append(w.as_str());
                    },
                    None => {
                        return Err(
                            MyCustomError::MissingFieldError(
                                String::from_str("the target template needs a month"),
                            ),
                        );
                    },
                }
            },
            Node::FebruaryAllCaps => {
                match &d.month {
                    Some(m) => {
                        proof {
                            crate::months::lemma_month_words_lower(*m);
                        }
                        let w = upper_word(m.full_name());
                        res.append(w.as_str());
                    },
                    None => {
                        return Err(
                            MyCustomError::MissingFieldError(
                                String::from_str("the target template needs a month"),
                            ),
                        );
                    },
                }
            },
            Node::Day => {
                match &d.day {
                    Some(day) => res.append(day.as_str()),
                    None => {
                        return Err(
                            MyCustomError::MissingFieldError(
                                String::from_str("the target template needs a day"),
                            ),
                        );
                    },
                }
            },
            Node::Hole(h) => {
                let hu = *h as usize;
                if hu < d.holes.len() {
                    res.append(d.holes[hu].as_str());
                } else {
                    return Err(
                        MyCustomError::MissingFieldError(
                            String::from_str("the target template names an undeclared hole"),
                        ),
                    );
                }
            },
            Node::Literal(l) => {
                res.append(l.as_str());
            },
        }
        proof {
            assert(res@ == res0 + render_node(nv[k as int], dv));
            assert(res0 + (render_node(nv[k as int], dv) + render_from(nv, k as int + 1, dv))
                =~= (res0 + render_node(nv[k as int], dv)) + render_from(nv, k as int + 1, dv));
        }
        k = k + 1;
    }
    proof {
        assert(res@ + render_from(nv, n as int, dv) =~= res@);
    }
    Ok(res)
}

} // verus!

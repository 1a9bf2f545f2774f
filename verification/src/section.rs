//! Default look of a node dropped into a named section of a template.
use vstd::prelude::*;
use crate::model::{Node, NodeKind, NodeShape};
use crate::text::{all_ascii, ascii_lower, ascii_upper, contains_run, lowercase, str_contains};

verus! {

/// The fill colour, and possibly the shape, that a section gives new nodes.
#[derive(Debug, Clone, Copy)]
pub struct SectionStyle {
    pub fill: [u8; 4],
    pub shape: Option<NodeShape>,
}

/// The style for a section whose lowercased name is `s`: the first rule whose keyword occurs
/// in the name decides; names that match no rule get no style.
pub open spec fn section_style_spec(s: Seq<char>) -> Option<SectionStyle> {
    if contains_run(s, "hypothes"@) {
        Some(SectionStyle { fill: [137, 180, 250, 255], shape: Some(NodeShape::RoundedRect) })
    } else if contains_run(s, "evidence"@) || contains_run(s, "data"@) || contains_run(s, "fact"@) {
        Some(SectionStyle { fill: [166, 227, 161, 255], shape: Some(NodeShape::Rectangle) })
    } else if contains_run(s, "assumption"@) {
        Some(SectionStyle { fill: [249, 226, 175, 255], shape: None })
    } else if contains_run(s, "conclusion"@) || contains_run(s, "decision"@) || contains_run(s, "finding"@) {
        Some(SectionStyle { fill: [203, 166, 247, 255], shape: Some(NodeShape::RoundedRect) })
    } else if contains_run(s, "risk"@) || contains_run(s, "issue"@) || contains_run(s, "block"@)
        || contains_run(s, "threat"@) {
        Some(SectionStyle { fill: [243, 139, 168, 255], shape: Some(NodeShape::Diamond) })
    } else if contains_run(s, "observation"@) || contains_run(s, "insight"@) || contains_run(s, "quote"@) {
        Some(SectionStyle { fill: [245, 194, 231, 255], shape: Some(NodeShape::Callout) })
    } else if contains_run(s, "strength"@) || contains_run(s, "opportunit"@) {
        Some(SectionStyle { fill: [166, 227, 161, 255], shape: None })
    } else if contains_run(s, "weakness"@) {
        Some(SectionStyle { fill: [249, 226, 175, 255], shape: None })
    } else {
        None
    }
}

/// The style that a section, given by its lowercased name, gives new nodes: blue rounded for
/// hypotheses, green rectangles for evidence, yellow for assumptions, purple rounded for
/// conclusions, red diamonds for risks, pink callouts for observations, green for strengths
/// and yellow for weaknesses.
pub fn section_style(section_lower: &str) -> (style: Option<SectionStyle>)
    ensures
        style == section_style_spec(section_lower@),
{
    let s = section_lower;
    if str_contains(s, "hypothes") {
        Some(SectionStyle { fill: [137, 180, 250, 255], shape: Some(NodeShape::RoundedRect) })
    } else if str_contains(s, "evidence") || str_contains(s, "data") || str_contains(s, "fact") {
        Some(SectionStyle { fill: [166, 227, 161, 255], shape: Some(NodeShape::Rectangle) })
    } else if str_contains(s, "assumption") {
        Some(SectionStyle { fill: [249, 226, 175, 255], shape: None })
    } else if str_contains(s, "conclusion") || str_contains(s, "decision") || str_contains(s, "finding") {
        Some(SectionStyle { fill: [203, 166, 247, 255], shape: Some(NodeShape::RoundedRect) })
    } else if str_contains(s, "risk") || str_contains(s, "issue") || str_contains(s, "block")
        || str_contains(s, "threat") {
        Some(SectionStyle { fill: [243, 139, 168, 255], shape: Some(NodeShape::Diamond) })
    } else if str_contains(s, "observation") || str_contains(s, "insight") || str_contains(s, "quote") {
        Some(SectionStyle { fill: [245, 194, 231, 255], shape: Some(NodeShape::Callout) })
    } else if str_contains(s, "strength") || str_contains(s, "opportunit") {
        Some(SectionStyle { fill: [166, 227, 161, 255], shape: None })
    } else if str_contains(s, "weakness") {
        Some(SectionStyle { fill: [249, 226, 175, 255], shape: None })
    } else {
        None
    }
}

/// Node `n` with the look of the section whose lowercased name is `s`: the section's fill
/// colour with text in colour `text`, and its shape when the section has one and the node
/// is a shape node; unchanged when the name matches no rule.
pub open spec fn styled(n: Node, s: Seq<char>, text: [u8; 4]) -> Node {
    match section_style_spec(s) {
        None => n,
        Some(style) => Node {
            fill_color: style.fill,
            text_color: text,
            kind: match (style.shape, n.kind) {
                (Some(sh), NodeKind::Shape { .. }) => NodeKind::Shape { shape: sh },
                _ => n.kind,
            },
            ..n
        },
    }
}

/// Whether `after` is `before` given the look of the section named `s`: as `styled` gives
/// it for the lowercased name, the text in a colour that `contrast` gives for the
/// section's fill; for an ASCII name, the lowercased name is its ASCII lowercase form.
pub open spec fn section_styled<F: Fn([u8; 4]) -> [u8; 4]>(before: Node, after: Node, s: Seq<char>, contrast: F) -> bool {
    &&& after == styled(before, lowercase(s), after.text_color)
    &&& match section_style_spec(lowercase(s)) {
        Some(style) => contrast.ensures((style.fill,), after.text_color),
        None => true,
    }
    &&& all_ascii(s) ==> lowercase(s) == s.map_values(|c: char| ascii_lower(c))
}

/// Whether `f` gives at most one result for each colour.
pub open spec fn one_result_per_colour<F: Fn([u8; 4]) -> [u8; 4]>(f: F) -> bool {
    forall|c: [u8; 4], x: [u8; 4], y: [u8; 4]| #[trigger] f.ensures((c,), x) && #[trigger] f.ensures((c,), y) ==> x == y
}

/// Gives a new node the default style of the section it is placed in: the section's fill
/// colour, text in the colour that `contrast` picks for that fill, and the section's shape
/// when it has one and the node is a shape node. A section whose name matches no rule
/// leaves the node as it was. The name is compared lowercased.
pub fn apply_section_style<F: Fn([u8; 4]) -> [u8; 4]>(node: &mut Node, section: &str, contrast: F)
    requires
        forall|c: [u8; 4]| contrast.requires((c,)),
    ensures
        section_styled(*old(node), *final(node), section@, contrast),
{
    let lower = section.to_lowercase();
    match section_style(lower.as_str()) {
        None => {},
        Some(style) => {
            node.fill_color = style.fill;
            node.text_color = contrast(style.fill);
            if let Some(sh) = style.shape {
                if let NodeKind::Shape { .. } = node.kind {
                    node.kind = NodeKind::Shape { shape: sh };
                }
            }
        },
    }
}

/// Placing a node in the same section twice gives it the same look as placing it once.
pub proof fn law_section_style_twice(n: Node, s: Seq<char>, text: [u8; 4])
    ensures
        styled(styled(n, s, text), s, text) == styled(n, s, text),
{
}

/// The look a section gives depends on its name only through the name's lowercase form:
/// two names that lowercase alike give the same look.
pub proof fn law_section_style_ignores_case(n: Node, a: Seq<char>, b: Seq<char>, text: [u8; 4])
    requires
        lowercase(a) == lowercase(b),
    ensures
        styled(n, lowercase(a), text) == styled(n, lowercase(b), text),
{
}


/// Applying a section's style twice gives the node applying it once gives, when the
/// contrast rule gives one text colour per fill.
pub proof fn law_apply_section_style_twice<F: Fn([u8; 4]) -> [u8; 4]>(
    n0: Node,
    n1: Node,
    n2: Node,
    s: Seq<char>,
    contrast: F,
)
    requires
        one_result_per_colour(contrast),
        section_styled(n0, n1, s, contrast),
        section_styled(n1, n2, s, contrast),
    ensures
        n2 == n1,
{
    match section_style_spec(lowercase(s)) {
        Some(style) => {
            assert(contrast.ensures((style.fill,), n1.text_color));
            assert(contrast.ensures((style.fill,), n2.text_color));
        },
        None => {},
    }
}

proof fn lemma_ascii_case_lowers_alike(s: Seq<char>)
    requires
        all_ascii(s),
    ensures
        all_ascii(s.map_values(|c: char| ascii_upper(c))),
        s.map_values(|c: char| ascii_upper(c)).map_values(|c: char| ascii_lower(c)) == s.map_values(
            |c: char| ascii_lower(c),
        ),
{
    let u = s.map_values(|c: char| ascii_upper(c));
    assert forall|i: int| 0 <= i < u.len() implies (#[trigger] u[i] as u32) < 128 && ascii_lower(u[i]) == ascii_lower(s[i]) by {
        assert((s[i] as u32) < 128);
    }
    assert(u.map_values(|c: char| ascii_lower(c)) =~= s.map_values(|c: char| ascii_lower(c)));
}

/// An ASCII section name and its ASCII uppercase form give a node the same look, when the
/// contrast rule gives one text colour per fill.
pub proof fn law_apply_section_style_ascii_case<F: Fn([u8; 4]) -> [u8; 4]>(
    n0: Node,
    a: Node,
    b: Node,
    s: Seq<char>,
    contrast: F,
)
    requires
        one_result_per_colour(contrast),
        all_ascii(s),
        section_styled(n0, a, s, contrast),
        section_styled(n0, b, s.map_values(|c: char| ascii_upper(c)), contrast),
    ensures
        a == b,
{
    lemma_ascii_case_lowers_alike(s);
    let u = s.map_values(|c: char| ascii_upper(c));
    assert(lowercase(u) == lowercase(s));
    match section_style_spec(lowercase(s)) {
        Some(style) => {
            assert(contrast.ensures((style.fill,), a.text_color));
            assert(contrast.ensures((style.fill,), b.text_color));
        },
        None => {},
    }
}

} // verus!

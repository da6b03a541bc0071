//! The closed-error-enum rule: a public enum that derives `Error` must
//! not be `#[non_exhaustive]`.
//!
//! An enum is a violation iff it is public, some attribute's path is
//! exactly `non_exhaustive`, and some `#[derive(..)]` entry's last path
//! segment is `Error`. Enums are collected from a file's items and from
//! inline module bodies, except modules marked `#[cfg(test)]`.
//!
//! A source file is parsed with `syn`; the parse is summarised as plain
//! data (paths, attribute arguments, enums and modules), and the rule is
//! decided on that summary.
use syn::punctuated::Punctuated;
use vstd::prelude::*;

verus! {

broadcast use vstd::seq::group_seq_axioms;

/// One segment of a path: its identifier, and whether it carries
/// generic or parenthesised arguments.
#[derive(Clone, Debug)]
pub struct SegmentSummary {
    pub ident: String,
    pub has_arguments: bool,
}

/// A path such as `thiserror::Error` or `::core::fmt::Debug`.
#[derive(Clone, Debug)]
pub struct PathSummary {
    /// The path starts with `::`.
    pub leading_colon: bool,
    pub segments: Vec<SegmentSummary>,
}

/// What the rule reads of one attribute.
#[derive(Clone, Debug)]
pub struct AttrSummary {
    /// The attribute's path (`derive`, `cfg`, `non_exhaustive`, ...).
    pub path: PathSummary,
    /// The paths of the nested items of `path(a, b = .., c(..))`, in order,
    /// as far as they read as nested meta items.
    pub nested: Vec<PathSummary>,
    /// The arguments as a comma-separated list of paths, when they read
    /// as one.
    pub args: Option<Vec<PathSummary>>,
}

/// What the rule reads of one enum.
#[derive(Clone, Debug)]
pub struct EnumSummary {
    pub name: String,
    /// Declared `pub` (unrestricted).
    pub is_public: bool,
    /// The line of the enum's name; 0 when unknown.
    pub line: usize,
    pub attrs: Vec<AttrSummary>,
}

/// One item of a source file or module body.
#[derive(Debug)]
pub enum ItemSummary {
    Enum(EnumSummary),
    /// An inline or out-of-line module; `content` is its body when inline.
    Mod { attrs: Vec<AttrSummary>, content: Option<Vec<ItemSummary>> },
    Other,
}

/// The verdict on one collected enum.
#[derive(Clone, Debug)]
pub struct EnumFinding {
    pub name: String,
    pub line: Option<usize>,
    pub violation: bool,
}

/// `p` is a single plain identifier equal to `name`: no leading `::`, one
/// segment, no arguments.
pub open spec fn path_is_ident(p: PathSummary, name: Seq<char>) -> bool {
    &&& !p.leading_colon
    &&& p.segments@.len() == 1
    &&& !p.segments@[0].has_arguments
    &&& p.segments@[0].ident@ == name
}

/// The identifier of the last segment of `p`, if it has one.
pub open spec fn last_ident(p: PathSummary) -> Option<Seq<char>> {
    if p.segments@.len() == 0 {
        None
    } else {
        Some(p.segments@.last().ident@)
    }
}

/// The attribute is `#[non_exhaustive]`.
pub open spec fn attr_is_non_exhaustive(a: AttrSummary) -> bool {
    path_is_ident(a.path, "non_exhaustive"@)
}

/// The attribute is `#[cfg(..)]` with `test` among its nested items.
pub open spec fn attr_is_cfg_test(a: AttrSummary) -> bool {
    &&& path_is_ident(a.path, "cfg"@)
    &&& exists|i: int| 0 <= i < a.nested@.len() && path_is_ident(#[trigger] a.nested@[i], "test"@)
}

/// The attribute is `#[derive(..)]` and some entry's last segment is `Error`.
pub open spec fn derives_error_in(a: AttrSummary) -> bool {
    &&& path_is_ident(a.path, "derive"@)
    &&& a.args matches Some(ps)
    &&& exists|j: int| 0 <= j < ps@.len() && last_ident(#[trigger] ps@[j]) == Some("Error"@)
}

/// Some attribute is `#[non_exhaustive]`.
pub open spec fn has_non_exhaustive(attrs: Seq<AttrSummary>) -> bool {
    exists|i: int| 0 <= i < attrs.len() && attr_is_non_exhaustive(#[trigger] attrs[i])
}

/// Some attribute is `cfg(test)`.
pub open spec fn has_cfg_test(attrs: Seq<AttrSummary>) -> bool {
    exists|i: int| 0 <= i < attrs.len() && attr_is_cfg_test(#[trigger] attrs[i])
}

/// Some attribute derives `Error`.
pub open spec fn derives_error(attrs: Seq<AttrSummary>) -> bool {
    exists|i: int| 0 <= i < attrs.len() && derives_error_in(#[trigger] attrs[i])
}

/// The rule: public, non-exhaustive, and an error type.
pub open spec fn violates(e: EnumSummary) -> bool {
    e.is_public && has_non_exhaustive(e.attrs@) && derives_error(e.attrs@)
}

/// The line reported for `e`: none where the parser knew none.
pub open spec fn reported_line(e: EnumSummary) -> Option<usize> {
    if e.line == 0 {
        None
    } else {
        Some(e.line)
    }
}

/// The verdict on `e`.
pub open spec fn finding_of(e: EnumSummary) -> EnumFinding {
    EnumFinding { name: e.name, line: reported_line(e), violation: violates(e) }
}

/// The enums of `items`, in order, descending into inline module bodies
/// that are not `cfg(test)`.
pub open spec fn enums_in(items: Seq<ItemSummary>) -> Seq<EnumSummary>
    decreases items,
{
    if items.len() == 0 {
        Seq::empty()
    } else {
        let n = items.len() - 1;
        enums_in(items.subrange(0, n)) + enums_of_item(items[n])
    }
}

/// The enums of one item.
pub open spec fn enums_of_item(item: ItemSummary) -> Seq<EnumSummary>
    decreases item,
{
    match item {
        ItemSummary::Enum(e) => seq![e],
        ItemSummary::Mod { attrs, content } => match content {
            Some(body) => if has_cfg_test(attrs@) {
                Seq::empty()
            } else {
                enums_in(body@)
            },
            None => Seq::empty(),
        },
        ItemSummary::Other => Seq::empty(),
    }
}

/// Whether `a` and `b` hold the same characters.
fn same_text(a: &str, b: &str) -> (r: bool)
    ensures
        r == (a@ == b@),
{
    let x = crate::text::chars_of(a);
    let y = crate::text::chars_of(b);
    if x.len() != y.len() {
        return false;
    }
    let mut i: usize = 0;
    while i < x.len()
        invariant
            0 <= i <= x.len(),
            x.len() == y.len(),
            x@ == a@,
            y@ == b@,
            forall|k: int| 0 <= k < i ==> x@[k] == y@[k],
        decreases x.len() - i,
    {
        if x[i] != y[i] {
            assert(x@[i as int] != y@[i as int]);
            return false;
        }
        i = i + 1;
    }
    assert(x@ =~= y@);
    true
}

/// Whether `p` is the plain identifier `name`.
fn path_is(p: &PathSummary, name: &str) -> (r: bool)
    ensures
        r == path_is_ident(*p, name@),
{
    if p.leading_colon || p.segments.len() != 1 {
        return false;
    }
    let s = &p.segments[0];
    !s.has_arguments && same_text(s.ident.as_str(), name)
}

fn attr_non_exhaustive(a: &AttrSummary) -> (r: bool)
    ensures
        r == attr_is_non_exhaustive(*a),
{
    path_is(&a.path, "non_exhaustive")
}

fn attr_cfg_test(a: &AttrSummary) -> (r: bool)
    ensures
        r == attr_is_cfg_test(*a),
{
    if !path_is(&a.path, "cfg") {
        return false;
    }
    let mut i: usize = 0;
    while i < a.nested.len()
        invariant
            0 <= i <= a.nested.len(),
            path_is_ident(a.path, "cfg"@),
            forall|k: int| 0 <= k < i ==> !path_is_ident(#[trigger] a.nested@[k], "test"@),
        decreases a.nested.len() - i,
    {
        if path_is(&a.nested[i], "test") {
            assert(path_is_ident(a.nested@[i as int], "test"@));
            return true;
        }
        i = i + 1;
    }
    false
}

fn attr_derives_error(a: &AttrSummary) -> (r: bool)
    ensures
        r == derives_error_in(*a),
{
    if !path_is(&a.path, "derive") {
        return false;
    }
    match &a.args {
        None => false,
        Some(ps) => {
            let mut j: usize = 0;
            while j < ps.len()
                invariant
                    0 <= j <= ps.len(),
                    path_is_ident(a.path, "derive"@),
                    a.args == Some(*ps),
                    forall|k: int| 0 <= k < j ==> last_ident(#[trigger] ps@[k]) != Some("Error"@),
                decreases ps.len() - j,
            {
                let segs = &ps[j].segments;
                let n = segs.len();
                if n > 0 && same_text(segs[n - 1].ident.as_str(), "Error") {
                    assert(last_ident(ps@[j as int]) == Some("Error"@));
                    return true;
                }
                j = j + 1;
            }
            false
        },
    }
}

fn any_cfg_test(attrs: &Vec<AttrSummary>) -> (r: bool)
    ensures
        r == has_cfg_test(attrs@),
{
    let mut i: usize = 0;
    while i < attrs.len()
        invariant
            0 <= i <= attrs.len(),
            forall|k: int| 0 <= k < i ==> !attr_is_cfg_test(#[trigger] attrs@[k]),
        decreases attrs.len() - i,
    {
        if attr_cfg_test(&attrs[i]) {
            return true;
        }
        i = i + 1;
    }
    false
}

/// Whether `e` breaks the closed-error-enum rule.
pub fn is_violation(e: &EnumSummary) -> (r: bool)
    ensures
        r == violates(*e),
{
    if !e.is_public {
        return false;
    }
    let mut non_exhaustive = false;
    let mut error_type = false;
    let mut i: usize = 0;
    while i < e.attrs.len()
        invariant
            0 <= i <= e.attrs.len(),
            non_exhaustive == exists|k: int| 0 <= k < i && attr_is_non_exhaustive(#[trigger] e.attrs@[k]),
            error_type == exists|k: int| 0 <= k < i && derives_error_in(#[trigger] e.attrs@[k]),
        decreases e.attrs.len() - i,
    {
        if attr_non_exhaustive(&e.attrs[i]) {
            non_exhaustive = true;
        }
        if attr_derives_error(&e.attrs[i]) {
            error_type = true;
        }
        i = i + 1;
    }
    error_type && non_exhaustive
}

/// Append the verdict on every enum of `items` to `out`, in order,
/// descending into inline module bodies that are not `cfg(test)`.
pub fn collect_findings(items: &Vec<ItemSummary>, out: &mut Vec<EnumFinding>)
    ensures
        final(out)@ == old(out)@ + enums_in(items@).map_values(|e: EnumSummary| finding_of(e)),
    decreases items@,
{
    let ghost start = old(out)@;
    let mut i: usize = 0;
    while i < items.len()
        invariant
            0 <= i <= items.len(),
            out@ == start + enums_in(items@.subrange(0, i as int)).map_values(
                |e: EnumSummary| finding_of(e),
            ),
        decreases items.len() - i,
    {
        let ghost before = out@;
        let ghost pre = items@.subrange(0, i as int);
        let ghost next = items@.subrange(0, i + 1);
        assert(next.subrange(0, i as int) =~= pre);
        assert(next[i as int] == items@[i as int]);
        match &items[i] {
            ItemSummary::Enum(e) => {
                let v = is_violation(e);
                let line = if e.line == 0 {
                    None
                } else {
                    Some(e.line)
                };
                out.push(EnumFinding { name: e.name.clone(), line, violation: v });
            },
            ItemSummary::Mod { attrs, content } => {
                match content {
                    Some(body) => {
                        if !any_cfg_test(attrs) {
                            assert(decreases_to!(items@ => items@[i as int]));
                            collect_findings(body, out);
                        }
                    },
                    None => {},
                }
            },
            ItemSummary::Other => {},
        }
        assert(enums_in(next) == enums_in(pre) + enums_of_item(items@[i as int]));
        assert(out@ =~= start + enums_in(next).map_values(|e: EnumSummary| finding_of(e)));
        i = i + 1;
    }
    assert(items@.subrange(0, i as int) =~= items@);
}

/// The number of violations among `findings`.
pub open spec fn violation_count(findings: Seq<EnumFinding>) -> nat
    decreases findings.len(),
{
    if findings.len() == 0 {
        0
    } else {
        violation_count(findings.drop_last()) + if findings.last().violation {
            1nat
        } else {
            0nat
        }
    }
}

/// How many of `findings` are violations.
pub fn count_violations(findings: &Vec<EnumFinding>) -> (n: usize)
    ensures
        n == violation_count(findings@),
{
    let mut n: usize = 0;
    let mut i: usize = 0;
    while i < findings.len()
        invariant
            0 <= i <= findings.len(),
            n == violation_count(findings@.subrange(0, i as int)),
            n <= i,
        decreases findings.len() - i,
    {
        assert(findings@.subrange(0, i + 1).drop_last() =~= findings@.subrange(0, i as int));
        if findings[i].violation {
            n = n + 1;
        }
        i = i + 1;
    }
    assert(findings@.subrange(0, i as int) =~= findings@);
    n
}

/// `p` is the plain one-segment path `name`, read off its fields.
pub open spec fn plain_path(p: PathSummary, name: Seq<char>) -> bool {
    !p.leading_colon && p.segments@.len() == 1 && !p.segments@[0].has_arguments
        && p.segments@[0].ident@ == name
}

/// Some entry of `args`, at any position, ends in a segment named `Error`.
pub open spec fn some_entry_ends_in_error(args: Option<Vec<PathSummary>>) -> bool {
    match args {
        Some(ps) => exists|j: int|
            0 <= j < ps@.len() && (#[trigger] ps@[j]).segments@.len() > 0
                && ps@[j].segments@.last().ident@ == "Error"@,
        None => false,
    }
}

/// A `#[derive(..)]` counts as deriving `Error` exactly when some entry,
/// at any position, ends in a segment named `Error`; so the order of the
/// entries never matters.
pub proof fn law_any_derive_entry_counts(a: AttrSummary)
    ensures
        derives_error_in(a) <==> (plain_path(a.path, "derive"@) && some_entry_ends_in_error(a.args)),
{
    if let Some(ps) = a.args {
        if some_entry_ends_in_error(a.args) {
            let j = choose|j: int|
                0 <= j < ps@.len() && (#[trigger] ps@[j]).segments@.len() > 0
                    && ps@[j].segments@.last().ident@ == "Error"@;
            assert(last_ident(ps@[j]) == Some("Error"@));
        }
    }
}

/// A public enum is flagged exactly when one of its attributes is the
/// plain path `non_exhaustive` and one is a `derive` with an entry ending
/// in `Error`, in whatever order the attributes and entries come; a
/// non-public enum never is.
pub proof fn law_violation_by_attributes(e: EnumSummary)
    ensures
        violates(e) <==> (e.is_public && (exists|i: int|
            0 <= i < e.attrs@.len() && plain_path((#[trigger] e.attrs@[i]).path, "non_exhaustive"@))
            && (exists|i: int|
            0 <= i < e.attrs@.len() && plain_path((#[trigger] e.attrs@[i]).path, "derive"@)
                && some_entry_ends_in_error(e.attrs@[i].args))),
{
    assert forall|i: int| 0 <= i < e.attrs@.len() implies derives_error_in(#[trigger] e.attrs@[i])
        == (plain_path(e.attrs@[i].path, "derive"@) && some_entry_ends_in_error(e.attrs@[i].args)) by {
        law_any_derive_entry_counts(e.attrs@[i]);
    }
}

/// A module marked `cfg(..)` with `test` among its nested paths hides its
/// enums; any other inline module, marked or not, has its enums collected
/// in order.
pub proof fn law_cfg_test_modules_hidden(attrs: Vec<AttrSummary>, body: Vec<ItemSummary>)
    ensures
        (exists|i: int|
            0 <= i < attrs@.len() && plain_path((#[trigger] attrs@[i]).path, "cfg"@) && exists|k: int|
                0 <= k < attrs@[i].nested@.len() && plain_path(
                    #[trigger] attrs@[i].nested@[k],
                    "test"@,
                )) ==> enums_of_item(ItemSummary::Mod { attrs, content: Some(body) }) == Seq::<
            EnumSummary,
        >::empty(),
        !(exists|i: int|
            0 <= i < attrs@.len() && plain_path((#[trigger] attrs@[i]).path, "cfg"@) && exists|k: int|
                0 <= k < attrs@[i].nested@.len() && plain_path(
                    #[trigger] attrs@[i].nested@[k],
                    "test"@,
                )) ==> enums_of_item(ItemSummary::Mod { attrs, content: Some(body) }) == enums_in(
            body@,
        ),
{
    if exists|i: int|
        0 <= i < attrs@.len() && plain_path((#[trigger] attrs@[i]).path, "cfg"@) && exists|k: int|
            0 <= k < attrs@[i].nested@.len() && plain_path(#[trigger] attrs@[i].nested@[k], "test"@) {
        let i = choose|i: int|
            0 <= i < attrs@.len() && plain_path((#[trigger] attrs@[i]).path, "cfg"@) && exists|k: int|
                0 <= k < attrs@[i].nested@.len() && plain_path(#[trigger] attrs@[i].nested@[k], "test"@);
        assert(attr_is_cfg_test(attrs@[i]));
    }
}

/// A parsed item of a Rust source file (`syn::Item`).
#[verifier::external_type_specification]
#[verifier::external_body]
pub struct ExSynItem(syn::Item);

/// A parsed outer or inner attribute (`syn::Attribute`).
#[verifier::external_type_specification]
#[verifier::external_body]
pub struct ExSynAttribute(syn::Attribute);

/// A parsed path (`syn::Path`).
#[verifier::external_type_specification]
#[verifier::external_body]
pub struct ExSynPath(syn::Path);

/// What `syn::parse_file` makes of the text `source`, in the summary form
/// above: `None` where syn refuses the text as a Rust file.
pub uninterp spec fn parsed_item_summaries(source: Seq<char>) -> Option<Seq<ItemSummary>>;

/// Parses `source` with `syn::parse_file` and summarises its items.
///
/// Trusted: the result is `parsed_item_summaries(source@)`; that is, the
/// parse and its summary depend on the text alone (the line of an enum is
/// counted from the start of `source`). Which texts syn accepts, and what
/// tree it builds, is left to syn and not stated here.
#[verifier::external_body]
fn parse_item_summaries(source: &str) -> (r: Option<Vec<ItemSummary>>)
    ensures
        match r {
            Some(v) => parsed_item_summaries(source@) == Some(v@),
            None => parsed_item_summaries(source@) is None,
        },
{
    syn::parse_file(source).ok().map(|file| item_summaries(&file.items))
}

/// Summarises parsed items one for one: an enum's name, whether it is
/// `pub`, the line of its name and its attributes; a module's attributes
/// and inline body; anything else as `Other`. Used by
/// `parse_item_summaries` alone.
#[verifier::external_body]
fn item_summaries(items: &[syn::Item]) -> Vec<ItemSummary> {
    items.iter().map(|item| match item {
        syn::Item::Enum(e) => ItemSummary::Enum(EnumSummary {
            name: e.ident.to_string(),
            is_public: matches!(e.vis, syn::Visibility::Public(_)),
            line: e.ident.span().start().line,
            attrs: attr_summaries(&e.attrs),
        }),
        syn::Item::Mod(m) => ItemSummary::Mod {
            attrs: attr_summaries(&m.attrs),
            content: m.content.as_ref().map(|(_, inner)| item_summaries(inner)),
        },
        _ => ItemSummary::Other,
    }).collect()
}

/// Summarises attributes one for one: the attribute's path, the paths that
/// `Attribute::parse_nested_meta` hands its callback, and the arguments
/// read by `Attribute::parse_args_with` as comma-separated paths. Used by
/// `item_summaries` alone.
#[verifier::external_body]
fn attr_summaries(attrs: &[syn::Attribute]) -> Vec<AttrSummary> {
    attrs.iter().map(|a| {
        let mut nested: Vec<syn::Path> = Vec::new();
        let _ = a.parse_nested_meta(|meta| { nested.push(meta.path.clone()); Ok(()) });
        let args = a.parse_args_with(Punctuated::<syn::Path, syn::token::Comma>::parse_terminated);
        AttrSummary {
            path: path_summary(a.path()),
            nested: nested.iter().map(path_summary).collect(),
            args: args.ok().map(|ps| ps.iter().map(path_summary).collect()),
        }
    }).collect()
}

/// Summarises a path one for one: its leading `::`, and each segment's
/// identifier and whether it has arguments.
#[verifier::external_body]
fn path_summary(p: &syn::Path) -> PathSummary {
    PathSummary {
        leading_colon: p.leading_colon.is_some(),
        segments: p.segments.iter().map(|s| SegmentSummary {
            ident: s.ident.to_string(),
            has_arguments: !s.arguments.is_none(),
        }).collect(),
    }
}

/// The verdict on every enum of the Rust source text `source`, in order,
/// descending into inline module bodies that are not `cfg(test)`; `None`
/// where the text does not parse as a Rust file.
pub fn scan_source(source: &str) -> (r: Option<Vec<EnumFinding>>)
    ensures
        match parsed_item_summaries(source@) {
            Some(items) => r matches Some(f) && f@ == enums_in(items).map_values(
                |e: EnumSummary| finding_of(e),
            ),
            None => r is None,
        },
{
    match parse_item_summaries(source) {
        Some(items) => {
            let mut out: Vec<EnumFinding> = Vec::new();
            collect_findings(&items, &mut out);
            assert(out@ =~= enums_in(items@).map_values(|e: EnumSummary| finding_of(e)));
            Some(out)
        },
        None => None,
    }
}

} // verus!

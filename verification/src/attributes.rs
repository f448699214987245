//! The `#[llm(...)]` and `#[serde(...)]` attributes the derive reads.
//!
//! Attributes come in as plain values: for each attribute the identifier of
//! its path, and either the nested items of its parenthesised list, in order,
//! or the message with which reading the list failed.

use vstd::prelude::*;
use crate::error::opt_view;
use crate::rename::is_known_rule;
use crate::text::{str_eq, trim, trimmed};

verus! {

/// The value after `=` in a nested attribute item.
#[derive(Debug)]
pub enum MetaExpr {
    /// A string literal, with its contents.
    Str(String),
    /// A literal of another kind (number, bool, char, ...).
    OtherLit,
    /// A path, such as a constant's name.
    Path,
    /// Any other expression.
    Other,
    /// The tokens did not form an expression; the parser's message.
    Invalid(String),
}

/// What follows the path of a nested attribute item.
#[derive(Debug)]
pub enum MetaArg {
    /// Nothing: the item is a bare path, as in `untagged`.
    Bare,
    /// `= value`.
    Value(MetaExpr),
    /// A parenthesised group, as in `bound(...)`.
    Parens,
}

/// One item of an attribute's list, such as `tag = "type"`.
#[derive(Debug)]
pub struct NestedMeta {
    /// The item's path when it is a single identifier.
    pub name: Option<String>,
    /// What follows the path.
    pub arg: MetaArg,
}

/// The arguments of an attribute.
#[derive(Debug)]
pub enum AttrArgs {
    /// A parenthesised list.
    List {
        /// The list's tokens, as they print.
        tokens: String,
        /// The items read from the list, in order.
        metas: Vec<NestedMeta>,
        /// The message of the syntax error met after the last item, if any.
        error: Option<String>,
    },
    /// Not a list; the message that asking for a list gives.
    NotList(String),
}

/// An attribute such as `#[serde(tag = "type")]`.
#[derive(Debug)]
pub struct AttrModel {
    /// The attribute's path when it is a single identifier.
    pub name: Option<String>,
    /// Its arguments.
    pub args: AttrArgs,
}

/// Metadata about an internally-tagged enum.
#[derive(Debug, Clone)]
pub struct TaggedEnumInfo {
    /// The tag field name (e.g., "type")
    pub tag_field: String,
    /// The content field name for adjacently-tagged enums (e.g., "data")
    pub content_field: Option<String>,
    /// The rename_all rule (e.g., "snake_case")
    pub rename_all: Option<String>,
}

/// Whether an optional name is the given identifier.
pub open spec fn named(name: Option<String>, ident: Seq<char>) -> bool {
    name matches Some(n) && n@ == ident
}

fn is_named(name: &Option<String>, ident: &str) -> (b: bool)
    ensures
        b == named(*name, ident@),
{
    match name {
        Some(n) => str_eq(n.as_str(), ident),
        None => false,
    }
}

/// Whether an attribute is `#[llm(union)]` (the list's tokens, trimmed, are `union`).
pub open spec fn is_union_attribute(a: AttrModel) -> bool {
    named(a.name, "llm"@) && (a.args matches AttrArgs::List { tokens, .. } && trimmed(tokens@)
        == "union"@)
}

/// Check if enum has #[llm(union)] attribute.
pub fn has_union_attribute(attrs: &Vec<AttrModel>) -> (b: bool)
    ensures
        b == exists|i: int| 0 <= i < attrs@.len() && is_union_attribute(#[trigger] attrs@[i]),
{
    let mut i: usize = 0;
    while i < attrs.len()
        invariant
            i <= attrs@.len(),
            forall|j: int| 0 <= j < i ==> !is_union_attribute(#[trigger] attrs@[j]),
        decreases attrs@.len() - i,
    {
        let a = &attrs[i];
        if is_named(&a.name, "llm") {
            match &a.args {
                AttrArgs::List { tokens, .. } => {
                    if str_eq(trim(tokens.as_str()), "union") {
                        return true;
                    }
                },
                AttrArgs::NotList(_) => {},
            }
        }
        i = i + 1;
    }
    false
}

/// Whether `untagged` is among the items read before the first item that
/// carries a value (an item's value is left unread, which stops the reading).
pub open spec fn untagged_in(metas: Seq<NestedMeta>) -> bool {
    exists|j: int|
        0 <= j < metas.len() && named(#[trigger] metas[j].name, "untagged"@) && forall|k: int|
            0 <= k < j ==> (#[trigger] metas[k].arg) is Bare
}

/// Whether an attribute is a `#[serde(...)]` list that says `untagged`.
pub open spec fn is_untagged_attribute(a: AttrModel) -> bool {
    named(a.name, "serde"@) && (a.args matches AttrArgs::List { metas, .. } && untagged_in(
        metas@,
    ))
}

fn says_untagged(metas: &Vec<NestedMeta>) -> (b: bool)
    ensures
        b == untagged_in(metas@),
{
    let mut k: usize = 0;
    while k < metas.len()
        invariant
            k <= metas@.len(),
            forall|l: int| 0 <= l < k ==> (#[trigger] metas@[l].arg) is Bare,
            forall|l: int| 0 <= l < k ==> !named(#[trigger] metas@[l].name, "untagged"@),
        decreases metas@.len() - k,
    {
        if is_named(&metas[k].name, "untagged") {
            assert(named(metas@[k as int].name, "untagged"@));
            return true;
        }
        match &metas[k].arg {
            MetaArg::Bare => {},
            _ => {
                assert(!untagged_in(metas@)) by {
                    if untagged_in(metas@) {
                        let j = choose|j: int|
                            0 <= j < metas@.len() && named(#[trigger] metas@[j].name, "untagged"@)
                                && forall|l: int| 0 <= l < j ==> (#[trigger] metas@[l].arg) is Bare;
                        if j > k {
                            assert(metas@[k as int].arg is Bare);
                        }
                    }
                }
                return false;
            },
        }
        k = k + 1;
    }
    false
}

/// Check if enum has #[serde(untagged)] attribute
pub fn has_untagged_attribute(attrs: &Vec<AttrModel>) -> (b: bool)
    ensures
        b == exists|i: int|
            0 <= i < attrs@.len() && is_untagged_attribute(#[trigger] attrs@[i]),
{
    let mut i: usize = 0;
    while i < attrs.len()
        invariant
            i <= attrs@.len(),
            forall|j: int| 0 <= j < i ==> !is_untagged_attribute(#[trigger] attrs@[j]),
        decreases attrs@.len() - i,
    {
        let a = &attrs[i];
        if is_named(&a.name, "serde") {
            match &a.args {
                AttrArgs::List { metas, .. } => {
                    if says_untagged(metas) {
                        assert(is_untagged_attribute(attrs@[i as int]));
                        return true;
                    }
                },
                AttrArgs::NotList(_) => {},
            }
        }
        i = i + 1;
    }
    false
}


/// What reading the `#[serde(...)]` attributes of an enum has gathered.
pub struct TagScanState {
    /// The last `tag = "..."` read.
    pub tag: Option<Seq<char>>,
    /// The last `content = "..."` read.
    pub content: Option<Seq<char>>,
    /// The last `rename_all = "..."` read.
    pub rename: Option<Seq<char>>,
    /// Where that `rename_all` stands: attribute index, item index.
    pub rename_at: (int, int),
    /// The warnings issued for attributes that could not be read in full.
    pub warnings: Seq<Seq<char>>,
}

/// The state before any attribute is read.
pub open spec fn tag_scan_start() -> TagScanState {
    TagScanState {
        tag: None,
        content: None,
        rename: None,
        rename_at: (0, 0),
        warnings: Seq::empty(),
    }
}

/// Reading `tag = value` or `content = value` (`kind` is `tag` or `content`):
/// the string, or the message of the failure.
pub open spec fn tag_value(kind: Seq<char>, arg: MetaArg) -> Result<Seq<char>, Seq<char>> {
    match arg {
        MetaArg::Value(MetaExpr::Str(s)) => Ok(s@),
        MetaArg::Value(MetaExpr::Path) => Err(
            kind + " attribute must be a string literal, const paths are not supported"@,
        ),
        MetaArg::Value(MetaExpr::Invalid(m)) => Err(m@),
        MetaArg::Value(_) => Err(kind + " attribute value must be a string literal"@),
        _ => Err("expected `=`"@),
    }
}

/// Reading `rename_all = "..."`: the string, or the message of the failure.
pub open spec fn rename_value(arg: MetaArg) -> Result<Seq<char>, Seq<char>> {
    match arg {
        MetaArg::Value(MetaExpr::Str(s)) => Ok(s@),
        MetaArg::Value(_) => Err("expected string literal"@),
        _ => Err("expected `=`"@),
    }
}

/// Reading one item of a `#[serde(...)]` list; `at` is where it stands.
pub open spec fn tag_meta_step(st: TagScanState, m: NestedMeta, at: (int, int)) -> Result<
    TagScanState,
    Seq<char>,
> {
    if named(m.name, "tag"@) {
        match tag_value("tag"@, m.arg) {
            Ok(v) => Ok(TagScanState { tag: Some(v), ..st }),
            Err(e) => Err(e),
        }
    } else if named(m.name, "content"@) {
        match tag_value("content"@, m.arg) {
            Ok(v) => Ok(TagScanState { content: Some(v), ..st }),
            Err(e) => Err(e),
        }
    } else if named(m.name, "rename_all"@) {
        match rename_value(m.arg) {
            Ok(v) => Ok(TagScanState { rename: Some(v), rename_at: at, ..st }),
            Err(e) => Err(e),
        }
    } else if m.arg is Bare {
        Ok(st)
    } else {
        Err("expected `,`"@)
    }
}

/// Reading the first `k` items of the list of attribute `ai`; reading stops at
/// the first item that fails, whose message is returned.
pub open spec fn tag_scan_list(st: TagScanState, metas: Seq<NestedMeta>, k: nat, ai: int) -> (
    TagScanState,
    Option<Seq<char>>,
)
    decreases k,
{
    if k == 0 {
        (st, None)
    } else {
        let (s1, e1) = tag_scan_list(st, metas, (k - 1) as nat, ai);
        if e1 is Some {
            (s1, e1)
        } else {
            match tag_meta_step(s1, metas[k - 1], (ai, k - 1)) {
                Ok(s2) => (s2, None),
                Err(e) => (s1, Some(e)),
            }
        }
    }
}

/// The warning issued for an attribute that could not be read in full.
pub open spec fn parse_warning(message: Seq<char>) -> Seq<char> {
    "Warning: Failed to parse serde attribute: "@ + message
}

/// `st` with a warning for `message` added.
pub open spec fn with_warning(st: TagScanState, message: Seq<char>) -> TagScanState {
    TagScanState { warnings: st.warnings.push(parse_warning(message)), ..st }
}

/// Reading attribute `ai`.
pub open spec fn tag_scan_attr(st: TagScanState, a: AttrModel, ai: int) -> TagScanState {
    if !named(a.name, "serde"@) {
        st
    } else {
        match a.args {
            AttrArgs::NotList(m) => with_warning(st, m@),
            AttrArgs::List { metas, error, .. } => {
                let (s1, e) = tag_scan_list(st, metas@, metas@.len(), ai);
                match e {
                    Some(m) => with_warning(s1, m),
                    None => match error {
                        Some(m) => with_warning(s1, m@),
                        None => s1,
                    },
                }
            },
        }
    }
}

/// Reading the first `n` attributes.
pub open spec fn tag_scan(attrs: Seq<AttrModel>, n: nat) -> TagScanState
    decreases n,
{
    if n == 0 {
        tag_scan_start()
    } else {
        tag_scan_attr(tag_scan(attrs, (n - 1) as nat), attrs[n - 1], n - 1)
    }
}

/// The error for a `rename_all` rule that is not one of the accepted ones.
pub open spec fn invalid_rename_text(rule: Seq<char>) -> Seq<char> {
    "Invalid rename_all value: '"@ + rule
        + "'. Valid values: snake_case, camelCase, PascalCase, kebab-case, SCREAMING_SNAKE_CASE"@
}

/// A `rename_all` rule that is not accepted, and where it was written.
#[derive(Debug)]
pub struct RenameAllError {
    /// The message to report.
    pub message: String,
    /// The index of the attribute that holds the rule.
    pub attr_index: usize,
    /// The index of the item within that attribute.
    pub meta_index: usize,
}

/// What reading an enum's `#[serde(...)]` attributes gives.
#[derive(Debug)]
pub struct TagInfoReport {
    /// The tag information, none when there is no `tag`; an error when the
    /// `rename_all` rule is not accepted.
    pub result: Result<Option<TaggedEnumInfo>, RenameAllError>,
    /// The warnings for attributes that could not be read in full.
    pub warnings: Vec<String>,
}

struct TagScan {
    tag: Option<String>,
    content: Option<String>,
    rename: Option<String>,
    rename_at: (usize, usize),
    warnings: Vec<String>,
}

impl TagScan {
    spec fn state(&self) -> TagScanState {
        TagScanState {
            tag: opt_view(self.tag),
            content: opt_view(self.content),
            rename: opt_view(self.rename),
            rename_at: (self.rename_at.0 as int, self.rename_at.1 as int),
            warnings: self.warnings@.map_values(|w: String| w@),
        }
    }
}

fn kind_error(kind: &str, is_path: bool) -> (r: String)
    ensures
        is_path ==> r@ == kind@
            + " attribute must be a string literal, const paths are not supported"@,
        !is_path ==> r@ == kind@ + " attribute value must be a string literal"@,
{
    let mut r = kind.to_owned();
    if is_path {
        r.append(" attribute must be a string literal, const paths are not supported");
    } else {
        r.append(" attribute value must be a string literal");
    }
    r
}

fn read_tag_value(kind: &str, arg: &MetaArg) -> (r: Result<String, String>)
    ensures
        match (r, tag_value(kind@, *arg)) {
            (Ok(a), Ok(b)) => a@ == b,
            (Err(a), Err(b)) => a@ == b,
            _ => false,
        },
{
    match arg {
        MetaArg::Value(MetaExpr::Str(s)) => Ok(s.clone()),
        MetaArg::Value(MetaExpr::Path) => Err(kind_error(kind, true)),
        MetaArg::Value(MetaExpr::Invalid(m)) => Err(m.clone()),
        MetaArg::Value(_) => Err(kind_error(kind, false)),
        _ => Err("expected `=`".to_owned()),
    }
}

fn read_rename_value(arg: &MetaArg) -> (r: Result<String, String>)
    ensures
        match (r, rename_value(*arg)) {
            (Ok(a), Ok(b)) => a@ == b,
            (Err(a), Err(b)) => a@ == b,
            _ => false,
        },
{
    match arg {
        MetaArg::Value(MetaExpr::Str(s)) => Ok(s.clone()),
        MetaArg::Value(_) => Err("expected string literal".to_owned()),
        _ => Err("expected `=`".to_owned()),
    }
}

fn apply_tag_meta(st: &mut TagScan, m: &NestedMeta, ai: usize, mi: usize) -> (r: Option<String>)
    ensures
        match tag_meta_step(old(st).state(), *m, (ai as int, mi as int)) {
            Ok(s2) => r is None && final(st).state() == s2,
            Err(e) => (r matches Some(x) && x@ == e) && final(st).state() == old(st).state(),
        },
{
    if is_named(&m.name, "tag") {
        match read_tag_value("tag", &m.arg) {
            Ok(v) => {
                st.tag = Some(v);
                None
            },
            Err(e) => Some(e),
        }
    } else if is_named(&m.name, "content") {
        match read_tag_value("content", &m.arg) {
            Ok(v) => {
                st.content = Some(v);
                None
            },
            Err(e) => Some(e),
        }
    } else if is_named(&m.name, "rename_all") {
        match read_rename_value(&m.arg) {
            Ok(v) => {
                st.rename = Some(v);
                st.rename_at = (ai, mi);
                None
            },
            Err(e) => Some(e),
        }
    } else {
        match &m.arg {
            MetaArg::Bare => None,
            _ => Some("expected `,`".to_owned()),
        }
    }
}

fn warn(st: &mut TagScan, message: &str)
    ensures
        final(st).state() == with_warning(old(st).state(), message@),
{
    let mut w = "Warning: Failed to parse serde attribute: ".to_owned();
    w.append(message);
    st.warnings.push(w);
    assert(final(st).state().warnings =~= old(st).state().warnings.push(parse_warning(message@)));
}

proof fn lemma_scan_list_stays(st: TagScanState, metas: Seq<NestedMeta>, k: nat, k2: nat, ai: int)
    requires
        k <= k2,
        tag_scan_list(st, metas, k, ai).1 is Some,
    ensures
        tag_scan_list(st, metas, k2, ai) == tag_scan_list(st, metas, k, ai),
    decreases k2,
{
    if k2 > k {
        lemma_scan_list_stays(st, metas, k, (k2 - 1) as nat, ai);
    }
}

fn scan_serde_list(st: &mut TagScan, metas: &Vec<NestedMeta>, ai: usize) -> (r: Option<String>)
    ensures
        ({
            let (s, e) = tag_scan_list(old(st).state(), metas@, metas@.len(), ai as int);
            final(st).state() == s && opt_view(r) == e
        }),
{
    let ghost start = st.state();
    let mut k: usize = 0;
    while k < metas.len()
        invariant
            k <= metas@.len(),
            start == old(st).state(),
            tag_scan_list(start, metas@, k as nat, ai as int) == (st.state(), None::<Seq<char>>),
        decreases metas@.len() - k,
    {
        let e = apply_tag_meta(st, &metas[k], ai, k);
        match e {
            Some(m) => {
                proof {
                    lemma_scan_list_stays(start, metas@, (k + 1) as nat, metas@.len(), ai as int);
                }
                return Some(m);
            },
            None => {},
        }
        k = k + 1;
    }
    None
}

/// Extract serde tag information from enum attributes.
///
/// Looks for #[serde(tag = "type")] and #[serde(rename_all = "snake_case")].
/// Reports an error if rename_all has a value outside the accepted rules.
pub fn extract_tag_info(attrs: &Vec<AttrModel>) -> (r: TagInfoReport)
    ensures
        ({
            let st = tag_scan(attrs@, attrs@.len());
            &&& r.warnings@.map_values(|w: String| w@) == st.warnings
            &&& match st.rename {
                Some(rule) if !is_known_rule(rule) => r.result matches Err(e) && e.message@
                    == invalid_rename_text(rule) && e.attr_index == st.rename_at.0
                    && e.meta_index == st.rename_at.1,
                _ => r.result matches Ok(o) && match st.tag {
                    None => o is None,
                    Some(t) => o matches Some(info) && info.tag_field@ == t && opt_view(
                        info.content_field,
                    ) == st.content && opt_view(info.rename_all) == st.rename,
                },
            }
        }),
{
    let mut st = TagScan { tag: None, content: None, rename: None, rename_at: (0, 0), warnings: Vec::new() };
    assert(st.state().warnings =~= Seq::<Seq<char>>::empty());
    let mut i: usize = 0;
    while i < attrs.len()
        invariant
            i <= attrs@.len(),
            st.state() == tag_scan(attrs@, i as nat),
        decreases attrs@.len() - i,
    {
        let a = &attrs[i];
        if is_named(&a.name, "serde") {
            match &a.args {
                AttrArgs::NotList(m) => {
                    warn(&mut st, m.as_str());
                },
                AttrArgs::List { metas, error, .. } => {
                    let e = scan_serde_list(&mut st, metas, i);
                    match e {
                        Some(m) => {
                            warn(&mut st, m.as_str());
                        },
                        None => match error {
                            Some(m) => {
                                warn(&mut st, m.as_str());
                            },
                            None => {},
                        },
                    }
                },
            }
        }
        i = i + 1;
    }
    let result = match &st.rename {
        Some(rule) => {
            if is_accepted_rule(rule.as_str()) {
                None
            } else {
                let mut message = "Invalid rename_all value: '".to_owned();
                message.append(rule.as_str());
                message.append(
                    "'. Valid values: snake_case, camelCase, PascalCase, kebab-case, SCREAMING_SNAKE_CASE",
                );
                Some(RenameAllError { message, attr_index: st.rename_at.0, meta_index: st.rename_at.1 })
            }
        },
        None => None,
    };
    match result {
        Some(e) => TagInfoReport { result: Err(e), warnings: st.warnings },
        None => {
            let info = match st.tag {
                Some(tag_field) => Some(
                    TaggedEnumInfo { tag_field, content_field: st.content, rename_all: st.rename },
                ),
                None => None,
            };
            TagInfoReport { result: Ok(info), warnings: st.warnings }
        },
    }
}

/// Whether `rule` is one of the `rename_all` rules the derive accepts.
pub fn is_accepted_rule(rule: &str) -> (b: bool)
    ensures
        b == is_known_rule(rule@),
{
    str_eq(rule, "snake_case") || str_eq(rule, "camelCase") || str_eq(rule, "PascalCase")
        || str_eq(rule, "kebab-case") || str_eq(rule, "SCREAMING_SNAKE_CASE")
}


/// The warning for a variant-level `rename_all` rule that is not accepted.
pub open spec fn variant_rename_warning(rule: Seq<char>, variant: Seq<char>) -> Seq<char> {
    "Warning: Invalid variant-level rename_all value '"@ + rule + "' on variant '"@ + variant
        + "'. Valid values: snake_case, camelCase, PascalCase, kebab-case, SCREAMING_SNAKE_CASE"@
}

/// The warnings from the first `k` items of a variant's `#[serde(...)]` list,
/// and whether reading stopped there (at an item it could not read).
pub open spec fn variant_list_warnings(metas: Seq<NestedMeta>, k: nat, variant: Seq<char>) -> (
    Seq<Seq<char>>,
    bool,
)
    decreases k,
{
    if k == 0 {
        (Seq::empty(), false)
    } else {
        let (w, stopped) = variant_list_warnings(metas, (k - 1) as nat, variant);
        if stopped {
            (w, true)
        } else {
            let m = metas[k - 1];
            if named(m.name, "rename_all"@) {
                match rename_value(m.arg) {
                    Ok(rule) => if is_known_rule(rule) {
                        (w, false)
                    } else {
                        (w.push(variant_rename_warning(rule, variant)), false)
                    },
                    Err(_) => (w, true),
                }
            } else {
                (w, !(m.arg is Bare))
            }
        }
    }
}

/// The warnings from the first `n` attributes of a variant.
pub open spec fn variant_warnings(attrs: Seq<AttrModel>, n: nat, variant: Seq<char>) -> Seq<
    Seq<char>,
>
    decreases n,
{
    if n == 0 {
        Seq::empty()
    } else {
        let before = variant_warnings(attrs, (n - 1) as nat, variant);
        let a = attrs[n - 1];
        if named(a.name, "serde"@) {
            match a.args {
                AttrArgs::List { metas, .. } => before + variant_list_warnings(
                    metas@,
                    metas@.len(),
                    variant,
                ).0,
                AttrArgs::NotList(_) => before,
            }
        } else {
            before
        }
    }
}

proof fn lemma_variant_list_stays(metas: Seq<NestedMeta>, k: nat, k2: nat, variant: Seq<char>)
    requires
        k <= k2,
        variant_list_warnings(metas, k, variant).1,
    ensures
        variant_list_warnings(metas, k2, variant) == variant_list_warnings(metas, k, variant),
    decreases k2,
{
    if k2 > k {
        lemma_variant_list_stays(metas, k, (k2 - 1) as nat, variant);
    }
}

fn variant_list_check(metas: &Vec<NestedMeta>, variant: &str, out: &mut Vec<String>)
    ensures
        final(out)@.map_values(|w: String| w@) == old(out)@.map_values(|w: String| w@)
            + variant_list_warnings(metas@, metas@.len(), variant@).0,
{
    let ghost start = old(out)@.map_values(|w: String| w@);
    let mut k: usize = 0;
    while k < metas.len()
        invariant
            k <= metas@.len(),
            start == old(out)@.map_values(|w: String| w@),
            !variant_list_warnings(metas@, k as nat, variant@).1,
            out@.map_values(|w: String| w@) == start + variant_list_warnings(
                metas@,
                k as nat,
                variant@,
            ).0,
        decreases metas@.len() - k,
    {
        let m = &metas[k];
        if is_named(&m.name, "rename_all") {
            match read_rename_value(&m.arg) {
                Ok(rule) => {
                    if !is_accepted_rule(rule.as_str()) {
                        let mut w = "Warning: Invalid variant-level rename_all value '".to_owned();
                        w.append(rule.as_str());
                        w.append("' on variant '");
                        w.append(variant);
                        w.append(
                            "'. Valid values: snake_case, camelCase, PascalCase, kebab-case, SCREAMING_SNAKE_CASE",
                        );
                        let ghost prev = out@;
                        out.push(w);
                        assert(out@.map_values(|w: String| w@) =~= prev.map_values(|w: String| w@).push(
                            variant_rename_warning(rule@, variant@),
                        ));
                    }
                },
                Err(_) => {
                    proof {
                        lemma_variant_list_stays(metas@, (k + 1) as nat, metas@.len(), variant@);
                    }
                    return;
                },
            }
        } else {
            match &m.arg {
                MetaArg::Bare => {},
                _ => {
                    proof {
                        lemma_variant_list_stays(metas@, (k + 1) as nat, metas@.len(), variant@);
                    }
                    return;
                },
            }
        }
        k = k + 1;
    }
}

/// Validate variant-level rename_all attributes: the warnings to print for
/// rules outside the accepted set, in the order they are met.
pub fn validate_variant_rename_all(variant: &str, attrs: &Vec<AttrModel>) -> (w: Vec<String>)
    ensures
        w@.map_values(|w: String| w@) == variant_warnings(attrs@, attrs@.len(), variant@),
{
    let mut out: Vec<String> = Vec::new();
    assert(out@.map_values(|w: String| w@) =~= Seq::<Seq<char>>::empty());
    let mut i: usize = 0;
    while i < attrs.len()
        invariant
            i <= attrs@.len(),
            out@.map_values(|w: String| w@) == variant_warnings(attrs@, i as nat, variant@),
        decreases attrs@.len() - i,
    {
        let a = &attrs[i];
        if is_named(&a.name, "serde") {
            match &a.args {
                AttrArgs::List { metas, .. } => {
                    variant_list_check(metas, variant, &mut out);
                },
                AttrArgs::NotList(_) => {},
            }
        }
        i = i + 1;
    }
    out
}

} // verus!

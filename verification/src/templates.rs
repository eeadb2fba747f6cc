//! Built-in site templates: ready-made field trees for Discuz! forums,
//! WordPress blogs and generic resource sites, and the check of a whole
//! field tree.
use vstd::prelude::*;
use crate::field_schema::{
    CssRule, ExtractorMode, FieldNodeSpec, FieldTree, FieldTreeNode, FieldType, PostProcessor,
    PostProcessorOp, Rule, Scope, SourceLayer, check_agrees, invalid_name_message, rule_error,
    valid_name, validate_name, validate_rule_value,
};
use crate::text::{is_ws, push_str, starts_with, str_eq, string_from_chars, trim, trim_end, trim_start};

verus! {

// ---------------------------------------------------------------------------
// Tree checks
// ---------------------------------------------------------------------------

/// A check failure: the message and whether it is exact (else a prefix of
/// the message).
pub type CheckError = (Seq<char>, bool);

/// Prefix of the message for a rule that is not of the node's mode.
pub open spec fn mode_mismatch_prefix(mode: ExtractorMode) -> Seq<char> {
    mode.label() + " 规则反序列化失败: "@
}

/// The node's own check: its name, then its rule read under its
/// `extractor_mode` (a rule of another mode cannot be read under it), then
/// the rule's content.
pub open spec fn node_own_error(s: FieldNodeSpec) -> Option<CheckError> {
    if !valid_name(s.name@) {
        Some((invalid_name_message(s.name@), true))
    } else if s.extractor_mode != s.rule.mode() {
        Some((mode_mismatch_prefix(s.extractor_mode), false))
    } else {
        match rule_error(s.rule) {
            Some(m) => Some((m, true)),
            None => None,
        }
    }
}

/// First failure of a node and its subtree, depth first.
pub open spec fn node_error(n: FieldTreeNode) -> Option<CheckError>
    decreases n, 1int,
{
    match node_own_error(n.spec) {
        Some(e) => Some(e),
        None => {
            proof {
                assert(decreases_to!(n => n.children));
                assert(decreases_to!(n.children => n.children@));
            }
            nodes_error(n.children@)
        },
    }
}

/// First failure among sibling nodes, in order.
pub open spec fn nodes_error(s: Seq<FieldTreeNode>) -> Option<CheckError>
    decreases s, 0int,
{
    if s.len() == 0 {
        None
    } else {
        proof {
            assert(decreases_to!(s => s[0]));
            assert(decreases_to!(s => s.subrange(1, s.len() as int)));
        }
        match node_error(s[0]) {
            Some(e) => Some(e),
            None => nodes_error(s.subrange(1, s.len() as int)),
        }
    }
}

/// First failure of a tree: list-page nodes, then detail-page nodes.
pub open spec fn tree_error(t: FieldTree) -> Option<CheckError> {
    match nodes_error(t.list_page@) {
        Some(e) => Some(e),
        None => nodes_error(t.detail_page@),
    }
}

/// A check result reports `expected`: `Ok` for none, else its message
/// (exactly, or as a prefix).
pub open spec fn reports(res: Result<(), String>, expected: Option<CheckError>) -> bool {
    match res {
        Ok(()) => expected is None,
        Err(e) => expected matches Some(x) && (if x.1 {
            e@ == x.0
        } else {
            starts_with(e@, x.0)
        }),
    }
}

fn mode_mismatch(mode: ExtractorMode) -> (r: Result<(), String>)
    ensures
        r matches Err(e) && starts_with(e@, mode_mismatch_prefix(mode)),
{
    let mut m: Vec<char> = Vec::new();
    push_str(&mut m, mode.as_str());
    push_str(&mut m, " 规则反序列化失败: ");
    let ghost p = m@;
    push_str(&mut m, "规则内容与 extractor_mode 不一致");
    assert(m@.take(p.len() as int) =~= p);
    Err(string_from_chars(m.as_slice()))
}

fn rule_mode(rule: &Rule) -> (r: ExtractorMode)
    ensures
        r == rule.mode(),
{
    match rule {
        Rule::Css(_) => ExtractorMode::Css,
        Rule::Regex(_) => ExtractorMode::Regex,
        Rule::PrefixSuffix(_) => ExtractorMode::PrefixSuffix,
        Rule::JsonPath(_) => ExtractorMode::JsonPath,
        Rule::MetaAttr(_) => ExtractorMode::MetaAttr,
        Rule::HeaderField(_) => ExtractorMode::HeaderField,
        Rule::FollowUrl(_) => ExtractorMode::FollowUrl,
        Rule::Script(_) => ExtractorMode::Script,
    }
}

/// Checks one node and its subtree.
fn validate_node(node: &FieldTreeNode) -> (r: Result<(), String>)
    ensures
        reports(r, node_error(*node)),
    decreases node, 1int,
{
    let s = &node.spec;
    let n = validate_name(s.name.as_str());
    if n.is_err() {
        return n;
    }
    if s.extractor_mode != rule_mode(&s.rule) {
        return mode_mismatch(s.extractor_mode);
    }
    let rr = validate_rule_value(&s.rule);
    if rr.is_err() {
        return rr;
    }
    proof {
        assert(decreases_to!(node => node.children));
    }
    validate_nodes(&node.children)
}

/// Checks sibling nodes in order.
fn validate_nodes(nodes: &Vec<FieldTreeNode>) -> (r: Result<(), String>)
    ensures
        reports(r, nodes_error(nodes@)),
    decreases nodes, 0int,
{
    let mut i: usize = 0;
    assert(nodes@.subrange(0, nodes@.len() as int) =~= nodes@);
    while i < nodes.len()
        invariant
            i <= nodes.len(),
            nodes_error(nodes@) == nodes_error(nodes@.subrange(i as int, nodes@.len() as int)),
        decreases nodes.len() - i,
    {
        let ghost rest = nodes@.subrange(i as int, nodes@.len() as int);
        assert(rest[0] == nodes@[i as int]);
        assert(rest.subrange(1, rest.len() as int) =~= nodes@.subrange(i + 1, nodes@.len() as int));
        proof {
            assert(decreases_to!(nodes => nodes@));
            assert(decreases_to!(nodes@ => nodes@[i as int]));
        }
        let r = validate_node(&nodes[i]);
        if r.is_err() {
            return r;
        }
        i = i + 1;
    }
    Ok(())
}

/// Checks every node of the tree (names, rules under their modes, rule
/// content), list page first; the first failure is returned.
pub fn validate_field_tree(tree: &FieldTree) -> (r: Result<(), String>)
    ensures
        reports(r, tree_error(*tree)),
{
    let a = validate_nodes(&tree.list_page);
    if a.is_err() {
        return a;
    }
    validate_nodes(&tree.detail_page)
}

/// The node settings of a node and its subtree, depth first.
pub open spec fn node_specs(n: FieldTreeNode) -> Seq<FieldNodeSpec>
    decreases n, 1int,
{
    proof {
        assert(decreases_to!(n => n.children));
        assert(decreases_to!(n.children => n.children@));
    }
    seq![n.spec] + nodes_specs(n.children@)
}

/// The node settings of sibling nodes and their subtrees, depth first.
pub open spec fn nodes_specs(s: Seq<FieldTreeNode>) -> Seq<FieldNodeSpec>
    decreases s, 0int,
{
    if s.len() == 0 {
        Seq::empty()
    } else {
        proof {
            assert(decreases_to!(s => s[0]));
            assert(decreases_to!(s => s.subrange(1, s.len() as int)));
        }
        node_specs(s[0]) + nodes_specs(s.subrange(1, s.len() as int))
    }
}

/// Every node passes its own check (name, rule under its mode, rule content).
pub open spec fn all_own_ok(v: Seq<FieldNodeSpec>) -> bool {
    forall|k: int| 0 <= k < v.len() ==> node_own_error(#[trigger] v[k]) is None
}

proof fn lemma_all_own_ok_concat(a: Seq<FieldNodeSpec>, b: Seq<FieldNodeSpec>)
    ensures
        all_own_ok(a + b) <==> all_own_ok(a) && all_own_ok(b),
{
    if all_own_ok(a + b) {
        assert forall|k: int| 0 <= k < a.len() implies node_own_error(#[trigger] a[k]) is None by {
            assert((a + b)[k] == a[k]);
        }
        assert forall|k: int| 0 <= k < b.len() implies node_own_error(#[trigger] b[k]) is None by {
            assert((a + b)[a.len() + k] == b[k]);
        }
    }
    if all_own_ok(a) && all_own_ok(b) {
        assert forall|k: int| 0 <= k < (a + b).len() implies node_own_error(#[trigger] (a + b)[k]) is None by {
            if k < a.len() {
                assert((a + b)[k] == a[k]);
            } else {
                assert((a + b)[k] == b[k - a.len()]);
            }
        }
    }
}

proof fn lemma_node_error_none(n: FieldTreeNode)
    ensures
        node_error(n) is None <==> all_own_ok(node_specs(n)),
    decreases n, 1int,
{
    assert(decreases_to!(n => n.children));
    assert(decreases_to!(n.children => n.children@));
    lemma_nodes_error_none(n.children@);
    lemma_all_own_ok_concat(seq![n.spec], nodes_specs(n.children@));
    assert(seq![n.spec][0] == n.spec);
}

proof fn lemma_nodes_error_none(s: Seq<FieldTreeNode>)
    ensures
        nodes_error(s) is None <==> all_own_ok(nodes_specs(s)),
    decreases s, 0int,
{
    if s.len() > 0 {
        assert(decreases_to!(s => s[0]));
        assert(decreases_to!(s => s.subrange(1, s.len() as int)));
        lemma_node_error_none(s[0]);
        lemma_nodes_error_none(s.subrange(1, s.len() as int));
        lemma_all_own_ok_concat(node_specs(s[0]), nodes_specs(s.subrange(1, s.len() as int)));
    }
}

/// A field tree passes [`validate_field_tree`] exactly when every node
/// reachable from the list page and from the detail page, children
/// included, passes its own check: a valid name, a rule of its
/// `extractor_mode`, and valid rule content.
pub proof fn lemma_tree_valid_iff_every_node_valid(t: FieldTree)
    ensures
        tree_error(t) is None <==> all_own_ok(nodes_specs(t.list_page@)) && all_own_ok(
            nodes_specs(t.detail_page@),
        ),
{
    lemma_nodes_error_none(t.list_page@);
    lemma_nodes_error_none(t.detail_page@);
}

// ---------------------------------------------------------------------------
// Template trees
// ---------------------------------------------------------------------------

fn pp(op: PostProcessorOp) -> (r: PostProcessor)
    ensures
        r.op == op,
{
    PostProcessor { op }
}

/// A string whose first character is not white space is not blank.
proof fn lemma_trim_nonblank(s: Seq<char>)
    requires
        s.len() > 0,
        !is_ws(s[0]),
    ensures
        trim(s).len() > 0,
{
    assert(trim_start(s) == s);
    lemma_trim_end_keeps_first(s);
}

proof fn lemma_trim_end_keeps_first(s: Seq<char>)
    requires
        s.len() > 0,
        !is_ws(s[0]),
    ensures
        trim_end(s).len() > 0,
    decreases s.len(),
{
    if s.len() > 1 && is_ws(s.last()) {
        assert(s.drop_last()[0] == s[0]);
        lemma_trim_end_keeps_first(s.drop_last());
    }
}

/// Nodes that each pass their checks pass together.
proof fn lemma_nodes_ok(s: Seq<FieldTreeNode>)
    requires
        forall|i: int| 0 <= i < s.len() ==> node_error(#[trigger] s[i]) is None,
    ensures
        nodes_error(s) is None,
    decreases s.len(),
{
    if s.len() > 0 {
        let rest = s.subrange(1, s.len() as int);
        assert forall|i: int| 0 <= i < rest.len() implies node_error(#[trigger] rest[i]) is None by {
            assert(rest[i] == s[i + 1]);
        }
        lemma_nodes_ok(rest);
    }
}

/// What a template writes for one field: a CSS rule on the HTML layer,
/// active, without ids, script index or refresh.
pub struct CssField {
    pub scope: Scope,
    pub name: Seq<char>,
    pub display_name: Seq<char>,
    pub field_type: FieldType,
    pub selector: Seq<char>,
    pub attr: Seq<char>,
    pub post_processors: Seq<PostProcessor>,
    pub sort_order: i32,
}

/// The node's settings are those of `f`.
pub open spec fn has_css_field(s: FieldNodeSpec, f: CssField) -> bool {
    &&& s.id is None
    &&& s.task_id is None
    &&& s.parent_id is None
    &&& s.scope == f.scope
    &&& s.name@ == f.name
    &&& s.display_name@ == f.display_name
    &&& s.field_type == f.field_type
    &&& s.source_layer == SourceLayer::Html
    &&& s.extractor_mode == ExtractorMode::Css
    &&& s.rule matches Rule::Css(c) && c.selector@ == f.selector && c.attr@ == f.attr
    &&& s.post_processors@ == f.post_processors
    &&& s.script_index is None
    &&& s.sort_order == f.sort_order
    &&& s.is_active
    &&& !s.refresh_on_read
}

/// Childless nodes with the given fields, in order.
pub open spec fn leaves_are(ns: Seq<FieldTreeNode>, fs: Seq<CssField>) -> bool {
    &&& ns.len() == fs.len()
    &&& forall|i: int| 0 <= i < ns.len() ==> has_css_field((#[trigger] ns[i]).spec, fs[i]) && ns[i].children@.len() == 0
}

/// A template tree: one card on list pages with the given child fields,
/// and the given detail-page fields.
pub open spec fn tree_shape(t: FieldTree, card: CssField, card_fields: Seq<CssField>, detail: Seq<CssField>) -> bool {
    &&& t.list_page@.len() == 1
    &&& has_css_field(t.list_page@[0].spec, card)
    &&& leaves_are(t.list_page@[0].children@, card_fields)
    &&& leaves_are(t.detail_page@, detail)
}

pub open spec fn fld(
    scope: Scope,
    name: Seq<char>,
    display_name: Seq<char>,
    field_type: FieldType,
    selector: Seq<char>,
    attr: Seq<char>,
    post_processors: Seq<PostProcessor>,
    sort_order: i32,
) -> CssField {
    CssField { scope, name, display_name, field_type, selector, attr, post_processors, sort_order }
}

pub open spec fn ops_trim() -> Seq<PostProcessor> {
    seq![PostProcessor { op: PostProcessorOp::Trim }]
}

pub open spec fn ops_first() -> Seq<PostProcessor> {
    seq![PostProcessor { op: PostProcessorOp::First }]
}

pub open spec fn ops_trim_first() -> Seq<PostProcessor> {
    seq![PostProcessor { op: PostProcessorOp::Trim }, PostProcessor { op: PostProcessorOp::First }]
}

pub open spec fn ops_trim_dedupe() -> Seq<PostProcessor> {
    seq![PostProcessor { op: PostProcessorOp::Trim }, PostProcessor { op: PostProcessorOp::Dedupe }]
}

/// The Discuz! thread card.
pub open spec fn discuz_card() -> CssField {
    fld(Scope::ListPage, "thread_card"@, "帖子卡片"@, FieldType::LinkCard, "tbody[id^=normalthread_] a.s.xst, .forumlist a.xst"@, "href"@, seq![], 0)
}

pub open spec fn discuz_card_fields() -> Seq<CssField> {
    seq![
        fld(Scope::ListPage, "title"@, "帖子标题"@, FieldType::String, "a.xst"@, "text"@, ops_trim(), 0),
        fld(Scope::ListPage, "cover"@, "帖子封面"@, FieldType::Image, "img.attach"@, "src"@, seq![], 1),
    ]
}

pub open spec fn discuz_detail_fields() -> Seq<CssField> {
    seq![
        fld(Scope::DetailPage, "title"@, "帖子标题"@, FieldType::String, "#thread_subject, h1.title"@, "text"@, ops_trim(), 0),
        fld(Scope::DetailPage, "content"@, "帖子正文"@, FieldType::Text, "td.t_f, .message"@, "text"@, ops_trim(), 1),
        fld(Scope::DetailPage, "post_time"@, "发帖时间"@, FieldType::Datetime, ".authi em, #authorposton1"@, "text"@, ops_trim(), 2),
    ]
}

/// The WordPress post card.
pub open spec fn wordpress_card() -> CssField {
    fld(Scope::ListPage, "post_card"@, "文章卡片"@, FieldType::LinkCard, ".post h2 a, .entry-title a"@, "href"@, seq![], 0)
}

pub open spec fn wordpress_card_fields() -> Seq<CssField> {
    seq![
        fld(Scope::ListPage, "title"@, "文章标题"@, FieldType::String, "a"@, "text"@, ops_trim(), 0),
        fld(Scope::ListPage, "cover"@, "封面图"@, FieldType::Image, "img.wp-post-image, img.attachment-post-thumbnail"@, "src"@, seq![], 1),
    ]
}

pub open spec fn wordpress_detail_fields() -> Seq<CssField> {
    seq![
        fld(Scope::DetailPage, "title"@, "文章标题"@, FieldType::String, "h1.entry-title"@, "text"@, ops_trim(), 0),
        fld(Scope::DetailPage, "content"@, "正文"@, FieldType::Text, ".entry-content"@, "text"@, ops_trim(), 1),
        fld(Scope::DetailPage, "published_at"@, "发布时间"@, FieldType::Datetime, "time.entry-date, .post-date"@, "datetime"@, ops_trim(), 2),
        fld(Scope::DetailPage, "tags"@, "标签"@, FieldType::String, ".tagcloud a, .post-tags a"@, "text"@, ops_trim_dedupe(), 3),
    ]
}

/// The generic resource card.
pub open spec fn generic_card() -> CssField {
    fld(Scope::ListPage, "resource_card"@, "资源卡片"@, FieldType::LinkCard, ".item, .card, .post, article"@, "html"@, seq![], 0)
}

pub open spec fn generic_card_fields() -> Seq<CssField> {
    seq![
        fld(Scope::ListPage, "title"@, "标题"@, FieldType::String, "a.title, h2 a, h3 a, .title a"@, "text"@, ops_trim(), 0),
        fld(Scope::ListPage, "url"@, "详情链接"@, FieldType::Url, "a.title, h2 a, h3 a, .title a"@, "href"@, seq![], 1),
        fld(Scope::ListPage, "cover"@, "封面图"@, FieldType::Image, "img, .thumb img, .cover img"@, "src"@, ops_first(), 2),
        fld(Scope::ListPage, "description"@, "摘要"@, FieldType::Text, ".desc, .summary, .excerpt, p"@, "text"@, ops_trim_first(), 3),
    ]
}

pub open spec fn generic_detail_fields() -> Seq<CssField> {
    seq![
        fld(Scope::DetailPage, "title"@, "标题"@, FieldType::String, "h1, .title, .article-title"@, "text"@, ops_trim(), 0),
        fld(Scope::DetailPage, "content"@, "正文"@, FieldType::Text, ".content, .article-content, .entry-content, article"@, "text"@, ops_trim(), 1),
        fld(Scope::DetailPage, "cover"@, "封面图"@, FieldType::Image, ".cover img, .thumbnail img, article img"@, "src"@, ops_first(), 2),
        fld(Scope::DetailPage, "tags"@, "标签"@, FieldType::String, ".tags a, .tag-list a, .post-tags a"@, "text"@, ops_trim_dedupe(), 3),
    ]
}

fn trim_ops() -> (r: Vec<PostProcessor>)
    ensures
        r@ == ops_trim(),
{
    let r = vec![pp(PostProcessorOp::Trim)];
    assert(r@ =~= ops_trim());
    r
}

fn first_ops() -> (r: Vec<PostProcessor>)
    ensures
        r@ == ops_first(),
{
    let r = vec![pp(PostProcessorOp::First)];
    assert(r@ =~= ops_first());
    r
}

fn trim_first_ops() -> (r: Vec<PostProcessor>)
    ensures
        r@ == ops_trim_first(),
{
    let r = vec![pp(PostProcessorOp::Trim), pp(PostProcessorOp::First)];
    assert(r@ =~= ops_trim_first());
    r
}

fn trim_dedupe_ops() -> (r: Vec<PostProcessor>)
    ensures
        r@ == ops_trim_dedupe(),
{
    let r = vec![pp(PostProcessorOp::Trim), pp(PostProcessorOp::Dedupe)];
    assert(r@ =~= ops_trim_dedupe());
    r
}

fn no_ops() -> (r: Vec<PostProcessor>)
    ensures
        r@ == Seq::<PostProcessor>::empty(),
{
    let r: Vec<PostProcessor> = Vec::new();
    assert(r@ =~= Seq::<PostProcessor>::empty());
    r
}

/// A top-level CSS field on the HTML layer, active, without ids.
fn css_node(
    scope: Scope,
    name: &str,
    display_name: &str,
    field_type: FieldType,
    selector: &str,
    attr: &str,
    post_processors: Vec<PostProcessor>,
    sort_order: i32,
    children: Vec<FieldTreeNode>,
) -> (r: FieldTreeNode)
    requires
        valid_name(name@),
        selector@.len() > 0,
        !is_ws(selector@[0]),
        nodes_error(children@) is None,
    ensures
        node_error(r) is None,
        has_css_field(r.spec, fld(scope, name@, display_name@, field_type, selector@, attr@, post_processors@, sort_order)),
        r.children@ == children@,
{
    proof {
        lemma_trim_nonblank(selector@);
    }
    let spec = FieldNodeSpec {
        id: None,
        task_id: None,
        parent_id: None,
        scope,
        name: String::from_str(name),
        display_name: String::from_str(display_name),
        field_type,
        source_layer: SourceLayer::Html,
        extractor_mode: ExtractorMode::Css,
        rule: Rule::Css(CssRule { selector: String::from_str(selector), attr: String::from_str(attr) }),
        post_processors,
        script_index: None,
        sort_order,
        is_active: true,
        refresh_on_read: false,
    };
    FieldTreeNode { spec, children }
}

/// Discuz! forum: thread cards (title, cover) on list pages; title, body and post time on thread pages.
#[verifier::rlimit(60)]
pub fn discuz_forum() -> (r: FieldTree)
    ensures
        tree_error(r) is None,
        tree_shape(r, discuz_card(), discuz_card_fields(), discuz_detail_fields()),
{
    proof {
        reveal_strlit("#thread_subject, h1.title");
        reveal_strlit(".authi em, #authorposton1");
        reveal_strlit("a.xst");
        reveal_strlit("content");
        reveal_strlit("cover");
        reveal_strlit("img.attach");
        reveal_strlit("post_time");
        reveal_strlit("tbody[id^=normalthread_] a.s.xst, .forumlist a.xst");
        reveal_strlit("td.t_f, .message");
        reveal_strlit("thread_card");
        reveal_strlit("title");
    }
    let n1 = css_node(Scope::ListPage, "title", "帖子标题", FieldType::String, "a.xst", "text", trim_ops(), 0, Vec::new());
    let n2 = css_node(Scope::ListPage, "cover", "帖子封面", FieldType::Image, "img.attach", "src", no_ops(), 1, Vec::new());
    let v3: Vec<FieldTreeNode> = vec![n1, n2];
    proof {
        lemma_nodes_ok(v3@);
    }
    let n4 = css_node(Scope::ListPage, "thread_card", "帖子卡片", FieldType::LinkCard, "tbody[id^=normalthread_] a.s.xst, .forumlist a.xst", "href", no_ops(), 0, v3);
    let v5: Vec<FieldTreeNode> = vec![n4];
    proof {
        lemma_nodes_ok(v5@);
    }
    let n6 = css_node(Scope::DetailPage, "title", "帖子标题", FieldType::String, "#thread_subject, h1.title", "text", trim_ops(), 0, Vec::new());
    let n7 = css_node(Scope::DetailPage, "content", "帖子正文", FieldType::Text, "td.t_f, .message", "text", trim_ops(), 1, Vec::new());
    let n8 = css_node(Scope::DetailPage, "post_time", "发帖时间", FieldType::Datetime, ".authi em, #authorposton1", "text", trim_ops(), 2, Vec::new());
    let v9: Vec<FieldTreeNode> = vec![n6, n7, n8];
    proof {
        lemma_nodes_ok(v9@);
    }
    assert(leaves_are(v3@, discuz_card_fields()));
    assert(leaves_are(v9@, discuz_detail_fields()));
    assert(has_css_field(v5@[0].spec, discuz_card()));
    FieldTree { list_page: v5, detail_page: v9 }
}

/// WordPress blog: post cards (title, cover) on list pages; title, body, publication time and tags on post pages.
#[verifier::rlimit(60)]
pub fn wordpress_blog() -> (r: FieldTree)
    ensures
        tree_error(r) is None,
        tree_shape(r, wordpress_card(), wordpress_card_fields(), wordpress_detail_fields()),
{
    proof {
        reveal_strlit(".entry-content");
        reveal_strlit(".post h2 a, .entry-title a");
        reveal_strlit(".tagcloud a, .post-tags a");
        reveal_strlit("a");
        reveal_strlit("content");
        reveal_strlit("cover");
        reveal_strlit("h1.entry-title");
        reveal_strlit("img.wp-post-image, img.attachment-post-thumbnail");
        reveal_strlit("post_card");
        reveal_strlit("published_at");
        reveal_strlit("tags");
        reveal_strlit("time.entry-date, .post-date");
        reveal_strlit("title");
    }
    let n10 = css_node(Scope::ListPage, "title", "文章标题", FieldType::String, "a", "text", trim_ops(), 0, Vec::new());
    let n11 = css_node(Scope::ListPage, "cover", "封面图", FieldType::Image, "img.wp-post-image, img.attachment-post-thumbnail", "src", no_ops(), 1, Vec::new());
    let v12: Vec<FieldTreeNode> = vec![n10, n11];
    proof {
        lemma_nodes_ok(v12@);
    }
    let n13 = css_node(Scope::ListPage, "post_card", "文章卡片", FieldType::LinkCard, ".post h2 a, .entry-title a", "href", no_ops(), 0, v12);
    let v14: Vec<FieldTreeNode> = vec![n13];
    proof {
        lemma_nodes_ok(v14@);
    }
    let n15 = css_node(Scope::DetailPage, "title", "文章标题", FieldType::String, "h1.entry-title", "text", trim_ops(), 0, Vec::new());
    let n16 = css_node(Scope::DetailPage, "content", "正文", FieldType::Text, ".entry-content", "text", trim_ops(), 1, Vec::new());
    let n17 = css_node(Scope::DetailPage, "published_at", "发布时间", FieldType::Datetime, "time.entry-date, .post-date", "datetime", trim_ops(), 2, Vec::new());
    let n18 = css_node(Scope::DetailPage, "tags", "标签", FieldType::String, ".tagcloud a, .post-tags a", "text", trim_dedupe_ops(), 3, Vec::new());
    let v19: Vec<FieldTreeNode> = vec![n15, n16, n17, n18];
    proof {
        lemma_nodes_ok(v19@);
    }
    assert(leaves_are(v12@, wordpress_card_fields()));
    assert(leaves_are(v19@, wordpress_detail_fields()));
    assert(has_css_field(v14@[0].spec, wordpress_card()));
    FieldTree { list_page: v14, detail_page: v19 }
}

/// Generic resource site: resource cards (title, link, cover, summary) on list pages; title, body, cover and tags on detail pages.
#[verifier::rlimit(60)]
pub fn generic_resource_site() -> (r: FieldTree)
    ensures
        tree_error(r) is None,
        tree_shape(r, generic_card(), generic_card_fields(), generic_detail_fields()),
{
    proof {
        reveal_strlit(".content, .article-content, .entry-content, article");
        reveal_strlit(".cover img, .thumbnail img, article img");
        reveal_strlit(".desc, .summary, .excerpt, p");
        reveal_strlit(".item, .card, .post, article");
        reveal_strlit(".tags a, .tag-list a, .post-tags a");
        reveal_strlit("a.title, h2 a, h3 a, .title a");
        reveal_strlit("content");
        reveal_strlit("cover");
        reveal_strlit("description");
        reveal_strlit("h1, .title, .article-title");
        reveal_strlit("img, .thumb img, .cover img");
        reveal_strlit("resource_card");
        reveal_strlit("tags");
        reveal_strlit("title");
        reveal_strlit("url");
    }
    let n20 = css_node(Scope::ListPage, "title", "标题", FieldType::String, "a.title, h2 a, h3 a, .title a", "text", trim_ops(), 0, Vec::new());
    let n21 = css_node(Scope::ListPage, "url", "详情链接", FieldType::Url, "a.title, h2 a, h3 a, .title a", "href", no_ops(), 1, Vec::new());
    let n22 = css_node(Scope::ListPage, "cover", "封面图", FieldType::Image, "img, .thumb img, .cover img", "src", first_ops(), 2, Vec::new());
    let n23 = css_node(Scope::ListPage, "description", "摘要", FieldType::Text, ".desc, .summary, .excerpt, p", "text", trim_first_ops(), 3, Vec::new());
    let v24: Vec<FieldTreeNode> = vec![n20, n21, n22, n23];
    proof {
        lemma_nodes_ok(v24@);
    }
    let n25 = css_node(Scope::ListPage, "resource_card", "资源卡片", FieldType::LinkCard, ".item, .card, .post, article", "html", no_ops(), 0, v24);
    let v26: Vec<FieldTreeNode> = vec![n25];
    proof {
        lemma_nodes_ok(v26@);
    }
    let n27 = css_node(Scope::DetailPage, "title", "标题", FieldType::String, "h1, .title, .article-title", "text", trim_ops(), 0, Vec::new());
    let n28 = css_node(Scope::DetailPage, "content", "正文", FieldType::Text, ".content, .article-content, .entry-content, article", "text", trim_ops(), 1, Vec::new());
    let n29 = css_node(Scope::DetailPage, "cover", "封面图", FieldType::Image, ".cover img, .thumbnail img, article img", "src", first_ops(), 2, Vec::new());
    let n30 = css_node(Scope::DetailPage, "tags", "标签", FieldType::String, ".tags a, .tag-list a, .post-tags a", "text", trim_dedupe_ops(), 3, Vec::new());
    let v31: Vec<FieldTreeNode> = vec![n27, n28, n29, n30];
    proof {
        lemma_nodes_ok(v31@);
    }
    assert(leaves_are(v24@, generic_card_fields()));
    assert(leaves_are(v31@, generic_detail_fields()));
    assert(has_css_field(v26@[0].spec, generic_card()));
    FieldTree { list_page: v26, detail_page: v31 }
}

// ---------------------------------------------------------------------------
// Template table
// ---------------------------------------------------------------------------

/// A built-in template.
#[derive(Debug)]
pub struct BuiltinTemplate {
    /// Unique key, used to create a task from the template.
    pub key: &'static str,
    pub name: &'static str,
    pub description: &'static str,
    /// Site type (`discuz`, `wordpress`, `generic`).
    pub source_type: &'static str,
    pub field_tree: FieldTree,
}

/// Keys of the built-in templates, in order.
pub open spec fn template_keys() -> Seq<Seq<char>> {
    seq!["discuz_forum"@, "wordpress_blog"@, "generic_resource_site"@]
}

/// Site types of the built-in templates, in order.
pub open spec fn template_source_types() -> Seq<Seq<char>> {
    seq!["discuz"@, "wordpress"@, "generic"@]
}

/// Display names of the built-in templates, in order.
pub open spec fn template_names() -> Seq<Seq<char>> {
    seq!["Discuz! 论坛"@, "WordPress 博客"@, "通用资源站"@]
}

/// Descriptions of the built-in templates, in order.
pub open spec fn template_descriptions() -> Seq<Seq<char>> {
    seq![
        "适用于 Discuz! 论坛：板块帖子列表 + 帖子详情（标题/正文/发帖时间）"@,
        "适用于 WordPress：文章列表（标题/封面）+ 详情（标题/正文/发布时间/标签）"@,
        "适配大多数「列表 + 详情」结构：资源卡片（标题/链接/封面/摘要）+ 详情（标题/正文/封面/标签）"@,
    ]
}

/// The field tree of built-in template `i`.
pub open spec fn template_tree(i: int, t: FieldTree) -> bool {
    if i == 0 {
        tree_shape(t, discuz_card(), discuz_card_fields(), discuz_detail_fields())
    } else if i == 1 {
        tree_shape(t, wordpress_card(), wordpress_card_fields(), wordpress_detail_fields())
    } else {
        tree_shape(t, generic_card(), generic_card_fields(), generic_detail_fields())
    }
}

/// Names of a node and of its subtree, depth first.
pub open spec fn node_names(n: FieldTreeNode) -> Seq<Seq<char>>
    decreases n, 1int,
{
    proof {
        assert(decreases_to!(n => n.children));
        assert(decreases_to!(n.children => n.children@));
    }
    seq![n.spec.name@] + nodes_names(n.children@)
}

/// Names of sibling nodes and their subtrees, depth first.
pub open spec fn nodes_names(s: Seq<FieldTreeNode>) -> Seq<Seq<char>>
    decreases s, 0int,
{
    if s.len() == 0 {
        Seq::empty()
    } else {
        proof {
            assert(decreases_to!(s => s[0]));
            assert(decreases_to!(s => s.subrange(1, s.len() as int)));
        }
        node_names(s[0]) + nodes_names(s.subrange(1, s.len() as int))
    }
}

pub open spec fn names_distinct(s: Seq<Seq<char>>) -> bool {
    forall|i: int, j: int| 0 <= i < j < s.len() ==> s[i] != s[j]
}

pub open spec fn field_names(fs: Seq<CssField>) -> Seq<Seq<char>> {
    fs.map_values(|f: CssField| f.name)
}

/// Built-in template `i` as `t` holds it: key, name, description, site type
/// and field tree; the tree passes every check, and field names are unique
/// within the list page and within the detail page, children included.
pub open spec fn is_builtin_template(t: BuiltinTemplate, i: int) -> bool {
    &&& t.key@ == template_keys()[i]
    &&& t.name@ == template_names()[i]
    &&& t.description@ == template_descriptions()[i]
    &&& t.source_type@ == template_source_types()[i]
    &&& template_tree(i, t.field_tree)
    &&& tree_error(t.field_tree) is None
    &&& names_distinct(nodes_names(t.field_tree.list_page@))
    &&& names_distinct(nodes_names(t.field_tree.detail_page@))
}

proof fn lemma_leaves_names(ns: Seq<FieldTreeNode>, fs: Seq<CssField>)
    requires
        leaves_are(ns, fs),
    ensures
        nodes_names(ns) == field_names(fs),
    decreases ns.len(),
{
    if ns.len() == 0 {
        assert(field_names(fs) =~= Seq::<Seq<char>>::empty());
    } else {
        let rest = ns.subrange(1, ns.len() as int);
        let frest = fs.subrange(1, fs.len() as int);
        assert forall|i: int| 0 <= i < rest.len() implies has_css_field((#[trigger] rest[i]).spec, frest[i])
            && rest[i].children@.len() == 0 by {
            assert(rest[i] == ns[i + 1]);
        }
        lemma_leaves_names(rest, frest);
        assert(ns[0].children@ =~= Seq::<FieldTreeNode>::empty());
        assert(nodes_names(ns[0].children@) =~= Seq::<Seq<char>>::empty());
        assert(field_names(fs) =~= seq![fs[0].name] + field_names(frest));
        assert(node_names(ns[0]) =~= seq![fs[0].name]);
    }
}

proof fn lemma_shape_names(t: FieldTree, card: CssField, cf: Seq<CssField>, df: Seq<CssField>)
    requires
        tree_shape(t, card, cf, df),
    ensures
        nodes_names(t.list_page@) == seq![card.name] + field_names(cf),
        nodes_names(t.detail_page@) == field_names(df),
{
    let l = t.list_page@;
    lemma_leaves_names(l[0].children@, cf);
    lemma_leaves_names(t.detail_page@, df);
    let e = l.subrange(1, 1);
    assert(e =~= Seq::<FieldTreeNode>::empty());
    assert(nodes_names(e) == Seq::<Seq<char>>::empty());
    assert(nodes_names(l) == node_names(l[0]) + nodes_names(e));
    assert(node_names(l[0]) == seq![l[0].spec.name@] + nodes_names(l[0].children@));
    assert(nodes_names(l) =~= seq![card.name] + field_names(cf));
}

proof fn lemma_template_names(i: int, t: FieldTree)
    requires
        0 <= i < 3,
        template_tree(i, t),
    ensures
        names_distinct(nodes_names(t.list_page@)),
        names_distinct(nodes_names(t.detail_page@)),
{
    reveal_strlit("thread_card");
    reveal_strlit("post_card");
    reveal_strlit("resource_card");
    reveal_strlit("title");
    reveal_strlit("cover");
    reveal_strlit("url");
    reveal_strlit("description");
    reveal_strlit("content");
    reveal_strlit("post_time");
    reveal_strlit("published_at");
    reveal_strlit("tags");
    let n_tc = "thread_card"@;
    let n_pc = "post_card"@;
    let n_rc = "resource_card"@;
    let n_t = "title"@;
    let n_c = "cover"@;
    let n_u = "url"@;
    let n_d = "description"@;
    let n_ct = "content"@;
    let n_pt = "post_time"@;
    let n_pa = "published_at"@;
    let n_tg = "tags"@;
    assert(n_t[0] == 't');
    assert(n_c[0] == 'c');
    assert(n_t != n_c);
    assert(n_tc.len() == 11 && n_pc.len() == 9 && n_rc.len() == 13 && n_t.len() == 5 && n_c.len() == 5);
    assert(n_u.len() == 3 && n_d.len() == 11 && n_ct.len() == 7 && n_pt.len() == 9 && n_pa.len() == 12);
    assert(n_tg.len() == 4 && n_d[0] == 'd' && n_tc[0] == 't' && n_tc[1] == 'h' && n_t[1] == 'i');
    assert(n_ct[0] == 'c' && n_pc[0] == 'p' && n_pt[0] == 'p' && n_pc[5] == 'c' && n_pt[5] == 't');
    if i == 0 {
        lemma_shape_names(t, discuz_card(), discuz_card_fields(), discuz_detail_fields());
        assert(nodes_names(t.list_page@) =~= seq!["thread_card"@, "title"@, "cover"@]);
        assert(nodes_names(t.detail_page@) =~= seq!["title"@, "content"@, "post_time"@]);
    } else if i == 1 {
        lemma_shape_names(t, wordpress_card(), wordpress_card_fields(), wordpress_detail_fields());
        assert(nodes_names(t.list_page@) =~= seq!["post_card"@, "title"@, "cover"@]);
        assert(nodes_names(t.detail_page@) =~= seq!["title"@, "content"@, "published_at"@, "tags"@]);
    } else {
        lemma_shape_names(t, generic_card(), generic_card_fields(), generic_detail_fields());
        assert(nodes_names(t.list_page@) =~= seq!["resource_card"@, "title"@, "url"@, "cover"@, "description"@]);
        assert(nodes_names(t.detail_page@) =~= seq!["title"@, "content"@, "cover"@, "tags"@]);
    }
}

/// The three built-in templates, in order (see [`is_builtin_template`]).
pub fn builtin_templates() -> (r: Vec<BuiltinTemplate>)
    ensures
        r@.len() == 3,
        forall|i: int| 0 <= i < 3 ==> is_builtin_template(#[trigger] r@[i], i),
{
    proof {
        reveal_strlit("Discuz! 论坛");
        reveal_strlit("WordPress 博客");
        reveal_strlit("通用资源站");
        reveal_strlit("discuz_forum");
        reveal_strlit("wordpress_blog");
        reveal_strlit("generic_resource_site");
        reveal_strlit("discuz");
        reveal_strlit("wordpress");
        reveal_strlit("generic");
    }
    let mut v: Vec<BuiltinTemplate> = Vec::new();
    v.push(BuiltinTemplate {
        key: "discuz_forum",
        name: "Discuz! 论坛",
        description: "适用于 Discuz! 论坛：板块帖子列表 + 帖子详情（标题/正文/发帖时间）",
        source_type: "discuz",
        field_tree: discuz_forum(),
    });
    v.push(BuiltinTemplate {
        key: "wordpress_blog",
        name: "WordPress 博客",
        description: "适用于 WordPress：文章列表（标题/封面）+ 详情（标题/正文/发布时间/标签）",
        source_type: "wordpress",
        field_tree: wordpress_blog(),
    });
    v.push(BuiltinTemplate {
        key: "generic_resource_site",
        name: "通用资源站",
        description: "适配大多数「列表 + 详情」结构：资源卡片（标题/链接/封面/摘要）+ 详情（标题/正文/封面/标签）",
        source_type: "generic",
        field_tree: generic_resource_site(),
    });
    proof {
        lemma_template_names(0, v@[0].field_tree);
        lemma_template_names(1, v@[1].field_tree);
        lemma_template_names(2, v@[2].field_tree);
    }
    v
}

/// `t` is the built-in template whose key is `key`.
pub open spec fn builtin_entry_for(t: BuiltinTemplate, key: Seq<char>) -> bool {
    ||| key == template_keys()[0] && is_builtin_template(t, 0)
    ||| key == template_keys()[1] && is_builtin_template(t, 1)
    ||| key == template_keys()[2] && is_builtin_template(t, 2)
}

/// The template with key `key`.
pub fn find_template(key: &str) -> (r: Option<BuiltinTemplate>)
    ensures
        match r {
            Some(t) => builtin_entry_for(t, key@),
            None => forall|i: int| 0 <= i < 3 ==> #[trigger] template_keys()[i] != key@,
        },
{
    let all = builtin_templates();
    let mut rest = all;
    let ghost orig = rest@;
    let mut i: usize = 0;
    while rest.len() > 0
        invariant
            orig.len() == 3,
            i + rest@.len() == 3,
            rest@ == orig.subrange(i as int, 3),
            forall|j: int| 0 <= j < 3 ==> is_builtin_template(#[trigger] orig[j], j),
            forall|j: int| 0 <= j < i ==> #[trigger] template_keys()[j] != key@,
        decreases rest.len(),
    {
        let t = rest.remove(0);
        assert(t == orig[i as int]);
        if str_eq(t.key, key) {
            assert(is_builtin_template(t, i as int));
            assert(template_keys()[i as int] == key@);
            assert(i < 3);
            assert(builtin_entry_for(t, key@));
            return Some(t);
        }
        i = i + 1;
        assert(rest@ =~= orig.subrange(i as int, 3));
    }
    None
}

} // verus!

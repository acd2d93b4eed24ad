//! The render pipeline: template evaluation followed by a fixed chain of
//! HTML transformations (style inlining, attribute stripping, body
//! extraction).

use kuchiki::traits::TendrilSink;
use vstd::prelude::*;
use vstd::string::StringExecFns;

use crate::json::blocks_to_json;
use crate::json::json_repr;
use crate::json::spec_block_json;
use crate::json::spec_user_json;
use crate::json::users_to_json;
use crate::json::JsonRepr;
use crate::model::BlockView;
use crate::model::ChatlogBlock;
use crate::model::Config;
use crate::model::UserFields;
use crate::text::join_lines;
use crate::text::spec_join_lines;

verus! {

#[verifier::external_type_specification]
#[verifier::external_body]
pub struct ExTera(tera::Tera);

#[verifier::external_type_specification]
#[verifier::external_body]
pub struct ExTeraContext(tera::Context);

#[verifier::external_type_specification]
#[verifier::external_body]
pub struct ExTeraError(tera::Error);

#[verifier::external_type_specification]
#[verifier::external_body]
pub struct ExInlineError(css_inline::InlineError);

#[verifier::external_type_specification]
#[verifier::external_body]
pub struct ExNodeRef(kuchiki::NodeRef);

/// An error of the render pipeline, carrying a human-readable message.
#[derive(Debug, Clone)]
pub enum RenderError {
    /// The template source was rejected when compiled.
    TemplateCompile { message: String },
    /// Evaluating the compiled template failed.
    TemplateRender { message: String },
    /// A CSS rule inside a `<style>` block could not be parsed or inlined.
    CssInline { message: String },
    /// The rendered document was not shaped as the pipeline guarantees;
    /// not expected to be reachable.
    Internal { message: String },
}

impl RenderError {
    /// The human-readable message the error carries.
    pub fn message(&self) -> (m: &String)
        ensures
            m@ == match self {
                RenderError::TemplateCompile { message } => message@,
                RenderError::TemplateRender { message } => message@,
                RenderError::CssInline { message } => message@,
                RenderError::Internal { message } => message@,
            },
    {
        match self {
            RenderError::TemplateCompile { message } => message,
            RenderError::TemplateRender { message } => message,
            RenderError::CssInline { message } => message,
            RenderError::Internal { message } => message,
        }
    }
}

/// Whether tera accepts a single template with the given name and source
/// into a fresh engine: the source parses and its inheritance and macro
/// references resolve against an engine holding only this template. The
/// outcome depends on the name and source alone.
pub uninterp spec fn template_accepted(name: Seq<char>, src: Seq<char>) -> bool;

/// The template store of an engine: each stored template's source, keyed
/// by template name.
pub uninterp spec fn engine_templates(t: tera::Tera) -> Map<Seq<char>, Seq<char>>;

/// Whether the engine has a filter registered under the name `markdown`.
pub uninterp spec fn markdown_registered(t: tera::Tera) -> bool;

/// The contents of an evaluation context: the shape of the value bound to
/// each key.
pub uninterp spec fn context_repr(c: tera::Context) -> Map<Seq<char>, JsonRepr>;

/// What inlining `<style>` blocks makes of the text: the adjusted
/// document when the contained CSS can be applied, nothing otherwise.
pub uninterp spec fn css_inline_outcome(html: Seq<char>) -> Option<Seq<char>>;

/// The abstract state of a parsed document tree.
pub uninterp spec fn doc_repr(d: kuchiki::NodeRef) -> Seq<char>;

/// The document tree that parsing the text produces.
pub uninterp spec fn parsed_doc(html: Seq<char>) -> Seq<char>;

/// The document tree with every element's `class` and `id` attributes
/// removed.
pub uninterp spec fn attrs_stripped(doc: Seq<char>) -> Seq<char>;

/// The serialized text of each child of the document's `<body>` element,
/// in order; nothing when the document has no body element.
pub uninterp spec fn body_fragments(doc: Seq<char>) -> Option<Seq<Seq<char>>>;

/// Relies on `tera::Tera::default` and `tera::Tera::add_raw_template`: a
/// fresh engine holding exactly the one compiled template, handed back
/// exactly when tera accepts the template; the engine state the outcome
/// could otherwise depend on is fixed by the fresh start.
#[verifier::external_body]
fn tera_with_template(name: &str, src: &str) -> (r: Result<tera::Tera, tera::Error>)
    ensures
        r is Ok <==> template_accepted(name@, src@),
        (r matches Ok(t) ==> engine_templates(t) == Map::<Seq<char>, Seq<char>>::empty().insert(
            name@,
            src@,
        )),
{
    let mut engine = tera::Tera::default();
    engine.add_raw_template(name, src)?;
    Ok(engine)
}

/// Relies on `tera::Tera::register_filter`: makes the library's markdown
/// conversion available inside templates as the filter `markdown`,
/// leaving the template store unchanged; the handed closure only calls
/// the verified conversion, or reports a filter error on non-string
/// input.
#[verifier::external_body]
fn register_markdown_filter(t: &mut tera::Tera)
    ensures
        markdown_registered(*final(t)),
        engine_templates(*final(t)) == engine_templates(*old(t)),
{
    t.register_filter(
        "markdown",
        |value: &tera::Value, _args: &std::collections::HashMap<String, tera::Value>| match value
            .as_str() {
            Some(s) => Ok(tera::Value::String(crate::markdown::markdown_to_html(s))),
            None => Err(tera::Error::msg("non-string value passed to markdown filter")),
        },
    )
}

/// A context with nothing bound.
pub open spec fn empty_context() -> Map<Seq<char>, JsonRepr> {
    Map::empty()
}

/// Relies on `tera::Context::new`: an empty evaluation context.
#[verifier::external_body]
fn context_new() -> (ctx: tera::Context)
    ensures
        context_repr(ctx) == empty_context(),
{
    tera::Context::new()
}

/// Relies on `tera::Context::insert`: binds the value under the key; a
/// later insert with the same key overwrites the earlier binding.
#[verifier::external_body]
fn context_insert(c: &mut tera::Context, key: &str, value: &serde_json::Value)
    ensures
        context_repr(*final(c)) == context_repr(*old(c)).insert(key@, json_repr(*value)),
{
    c.insert(key, value)
}

/// Relies on `tera::Tera::render`: evaluates the named template against
/// the context. Templates can reach the clock and the environment, so
/// nothing is stated of the produced text.
#[verifier::external_body]
fn tera_render(t: &tera::Tera, name: &str, c: &tera::Context) -> Result<String, tera::Error> {
    t.render(name, c)
}

/// Relies on `tera::Error`'s `Display` implementation for a
/// human-readable message.
#[verifier::external_body]
fn tera_error_text(e: &tera::Error) -> String {
    format!("{}", e)
}

/// Relies on `css_inline::CSSInliner::inline`, configured to inline and
/// then remove `<style>` tags with no extra CSS: with remote loading
/// unavailable the outcome depends on the input text alone.
#[verifier::external_body]
fn inline_style_tags(html: &str) -> (r: Result<String, css_inline::InlineError>)
    ensures
        match r {
            Ok(s) => css_inline_outcome(html@) == Some(s@),
            Err(_) => css_inline_outcome(html@) is None,
        },
{
    let inliner = css_inline::CSSInliner::options()
        .inline_style_tags(true)
        .remove_style_tags(true)
        .extra_css(None)
        .build();
    inliner.inline(html)
}

/// Relies on `css_inline::InlineError`'s `Display` implementation for a
/// human-readable message.
#[verifier::external_body]
fn css_error_text(e: &css_inline::InlineError) -> String {
    format!("{}", e)
}

/// Relies on `kuchiki::parse_html`: parses the text into a document tree,
/// a function of the text alone.
#[verifier::external_body]
fn parse_document(html: &str) -> (d: kuchiki::NodeRef)
    ensures
        doc_repr(d) == parsed_doc(html@),
{
    kuchiki::parse_html().one(html)
}

/// Relies on `kuchiki::NodeRef::select` and kuchiki's attribute maps:
/// removes the `class` and `id` attributes of every element of the
/// document. The `*` selector always compiles, so the removal always
/// takes place.
#[verifier::external_body]
fn remove_class_and_id_attributes(d: &mut kuchiki::NodeRef)
    ensures
        doc_repr(*final(d)) == attrs_stripped(doc_repr(*old(d))),
{
    if let Ok(nodes) = d.select("*") {
        for node in nodes {
            node.attributes.borrow_mut().remove("class");
            node.attributes.borrow_mut().remove("id");
        }
    }
}

/// Relies on `kuchiki::NodeRef::select_first`, `children` and node
/// serialization: the serialized text of each child of the `<body>`
/// element, in order; nothing when no body element exists.
#[verifier::external_body]
fn body_children_html(d: &kuchiki::NodeRef) -> (r: Option<Vec<String>>)
    ensures
        match r {
            Some(v) => body_fragments(doc_repr(*d)) == Some(v.deep_view()),
            None => body_fragments(doc_repr(*d)) is None,
        },
{
    match d.select_first("body") {
        Ok(body) => Some(body.as_node().children().map(|node| node.to_string()).collect()),
        Err(()) => None,
    }
}

/// Strips `class` and `id` attributes from every element of the fragment
/// and returns the children of the resulting document's body, serialized
/// and joined with newlines. Fails only when the parsed document has no
/// body element, which parsing is not expected to produce.
pub fn strip_attributes(html: &str) -> (r: Result<String, RenderError>)
    ensures
        r is Ok <==> body_fragments(attrs_stripped(parsed_doc(html@))) is Some,
        (r matches Ok(out) ==> out@ == spec_join_lines(
            body_fragments(attrs_stripped(parsed_doc(html@)))->Some_0,
        )),
        (r matches Err(e) ==> e matches RenderError::Internal { .. }),
{
    let mut doc = parse_document(html);
    remove_class_and_id_attributes(&mut doc);
    match body_children_html(&doc) {
        Some(parts) => Ok(join_lines(&parts)),
        None => Err(
            RenderError::Internal {
                message: String::from_str("rendered document has no body element"),
            },
        ),
    }
}

/// The post-processing chain applied to the raw HTML a template produced:
/// `<style>` blocks are inlined and removed, `class` and `id` attributes
/// stripped, and the body's children serialized and joined with newlines.
/// Fails exactly when the CSS cannot be inlined, or — not expected to be
/// reachable — when the inlined document has no body element.
pub fn post_process(html: &str) -> (r: Result<String, RenderError>)
    ensures
        (css_inline_outcome(html@) is None <==> (r matches Err(e)
            && e matches RenderError::CssInline { .. })),
        (css_inline_outcome(html@) is Some && body_fragments(
            attrs_stripped(parsed_doc(css_inline_outcome(html@)->Some_0)),
        ) is Some ==> r is Ok),
        (r matches Ok(out) ==> css_inline_outcome(html@) is Some && body_fragments(
            attrs_stripped(parsed_doc(css_inline_outcome(html@)->Some_0)),
        ) is Some && out@ == spec_join_lines(
            body_fragments(attrs_stripped(parsed_doc(css_inline_outcome(html@)->Some_0)))->Some_0,
        )),
        ((r matches Err(e) && e matches RenderError::Internal { .. }) ==> css_inline_outcome(
            html@,
        ) is Some && body_fragments(
            attrs_stripped(parsed_doc(css_inline_outcome(html@)->Some_0)),
        ) is None),
        (r matches Err(e) ==> (e matches RenderError::CssInline { .. } || e
            matches RenderError::Internal { .. })),
{
    match inline_style_tags(html) {
        Ok(mid) => strip_attributes(mid.as_str()),
        Err(e) => Err(RenderError::CssInline { message: css_error_text(&e) }),
    }
}

/// The contents of the base evaluation context: `posts` bound to the
/// serialized block sequence and `users` to the table's records in table
/// order.
pub open spec fn base_context(posts: Seq<BlockView>, people: Seq<(Seq<char>, UserFields)>) -> Map<
    Seq<char>,
    JsonRepr,
> {
    Map::<Seq<char>, JsonRepr>::empty().insert(
        "posts"@,
        JsonRepr::List(posts.map_values(|b: BlockView| spec_block_json(b))),
    ).insert("users"@, JsonRepr::List(people.map_values(|p: (Seq<char>, UserFields)| spec_user_json(p.1))))
}

/// The context after binding the extra variables in order, a later
/// binding overwriting an earlier one with the same key.
pub open spec fn with_extras(
    base: Map<Seq<char>, JsonRepr>,
    extras: Seq<(Seq<char>, JsonRepr)>,
) -> Map<Seq<char>, JsonRepr>
    decreases extras.len(),
{
    if extras.len() == 0 {
        base
    } else {
        with_extras(base, extras.drop_last()).insert(extras.last().0, extras.last().1)
    }
}

/// The full evaluation context a render call hands to the template
/// engine.
pub open spec fn spec_render_context(
    posts: Seq<BlockView>,
    people: Seq<(Seq<char>, UserFields)>,
    extras: Seq<(Seq<char>, JsonRepr)>,
) -> Map<Seq<char>, JsonRepr> {
    with_extras(base_context(posts, people), extras)
}

/// Builds the evaluation context: `posts`, then `users`, then every
/// caller-supplied extra variable in order, a later binding overwriting
/// an earlier one with the same key.
pub fn build_render_context(
    posts: &Vec<ChatlogBlock>,
    config: &Config,
    additional_variables: Vec<(String, serde_json::Value)>,
) -> (c: tera::Context)
    ensures
        context_repr(c) == spec_render_context(
            posts.deep_view(),
            config.view(),
            additional_variables@.map_values(
                |p: (String, serde_json::Value)| (p.0@, json_repr(p.1)),
            ),
        ),
{
    let ghost base = base_context(posts.deep_view(), config.view());
    let ghost extras = additional_variables@.map_values(
        |p: (String, serde_json::Value)| (p.0@, json_repr(p.1)),
    );
    let mut context = context_new();
    let posts_value = blocks_to_json(posts);
    context_insert(&mut context, "posts", &posts_value);
    let users_value = users_to_json(config);
    context_insert(&mut context, "users", &users_value);
    proof {
        assert(context_repr(context) == base);
        assert(extras.take(0) =~= Seq::<(Seq<char>, JsonRepr)>::empty());
    }
    let mut i: usize = 0;
    while i < additional_variables.len()
        invariant
            i <= additional_variables.len(),
            base == base_context(posts.deep_view(), config.view()),
            extras == additional_variables@.map_values(
                |p: (String, serde_json::Value)| (p.0@, json_repr(p.1)),
            ),
            context_repr(context) == with_extras(base, extras.take(i as int)),
        decreases additional_variables.len() - i,
    {
        context_insert(
            &mut context,
            additional_variables[i].0.as_str(),
            &additional_variables[i].1,
        );
        proof {
            assert(extras[i as int] == (
                additional_variables@[i as int].0@,
                json_repr(additional_variables@[i as int].1),
            ));
            assert(extras.take(i as int + 1).drop_last() =~= extras.take(i as int));
            assert(extras.take(i as int + 1).last() == extras[i as int]);
        }
        i = i + 1;
    }
    proof {
        assert(extras.take(additional_variables.len() as int) =~= extras);
    }
    context
}

/// Renders the parsed blocks through the given template and post-processes
/// the result into the final HTML fragment.
///
/// The engine holds exactly the given template with the `markdown` filter
/// registered, and is evaluated against the context that
/// [`build_render_context`] pins down: `posts`, `users`, then the extra
/// variables, a later binding overwriting an earlier one.
/// `template_name` only labels the template in diagnostics.
pub fn render(
    template_name: &str,
    template: &str,
    posts: &Vec<ChatlogBlock>,
    config: &Config,
    additional_variables: Vec<(String, serde_json::Value)>,
) -> (r: Result<String, RenderError>)
    ensures
        (!template_accepted(template_name@, template@) ==> (r matches Err(e)
            && e matches RenderError::TemplateCompile { .. })),
        ((r matches Err(e) && e matches RenderError::TemplateCompile { .. })
            ==> !template_accepted(template_name@, template@)),
        ((r matches Err(e) && !(e matches RenderError::TemplateCompile { .. }))
            ==> template_accepted(template_name@, template@)),
        ((r matches Err(e) && e matches RenderError::CssInline { .. }) ==> (exists|raw: Seq<char>|
            #[trigger] css_inline_outcome(raw) is None)),
        ((r matches Err(e) && e matches RenderError::Internal { .. }) ==> (exists|raw: Seq<char>|
            {
                &&& #[trigger] css_inline_outcome(raw) is Some
                &&& body_fragments(attrs_stripped(parsed_doc(css_inline_outcome(raw)->Some_0)))
                    is None
            })),
        (r matches Ok(out) ==> template_accepted(template_name@, template@) && (exists|
            raw: Seq<char>,
        |
            {
                &&& #[trigger] css_inline_outcome(raw) is Some
                &&& body_fragments(attrs_stripped(parsed_doc(css_inline_outcome(raw)->Some_0)))
                    is Some
                &&& out@ == spec_join_lines(
                    body_fragments(
                        attrs_stripped(parsed_doc(css_inline_outcome(raw)->Some_0)),
                    )->Some_0,
                )
            })),
{
    let mut engine = match tera_with_template(template_name, template) {
        Ok(engine) => engine,
        Err(e) => {
            return Err(RenderError::TemplateCompile { message: tera_error_text(&e) });
        },
    };
    register_markdown_filter(&mut engine);
    let context = build_render_context(posts, config, additional_variables);
    let raw = match tera_render(&engine, template_name, &context) {
        Ok(raw) => raw,
        Err(e) => {
            return Err(RenderError::TemplateRender { message: tera_error_text(&e) });
        },
    };
    let result = post_process(raw.as_str());
    proof {
        if result is Ok {
            assert(css_inline_outcome(raw@) is Some);
        }
        if result matches Err(RenderError::CssInline { .. }) {
            assert(css_inline_outcome(raw@) is None);
        }
        if result matches Err(RenderError::Internal { .. }) {
            assert(css_inline_outcome(raw@) is Some);
        }
    }
    result
}

} // verus!

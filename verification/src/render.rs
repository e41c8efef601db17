//! Binding pages into the base template.
//!
//! Templates are compiled and evaluated by `tera`. This module decides what
//! the template engine is handed: which sets of templates it is given to
//! compile, which template is rendered for a page, and which values that
//! template can refer to. Evaluating a template is left to the caller: the
//! engine can panic while it evaluates one, on arithmetic that leaves the
//! finite numbers for one, and nothing here tells such a template from
//! another.

use crate::inheritance::{chain_ends, chains_end, endless_chain};
use crate::page::{Page, PageModel};
use vstd::prelude::*;

verus! {

/// `tera::Tera`, a set of compiled templates. Nothing of its inside is
/// visible here but what `loaded_templates` and `autoescape_suffixes` give.
#[verifier::external_type_specification]
#[verifier::external_body]
pub struct ExTera(tera::Tera);

/// `tera::Context`, the values a template can refer to. Nothing of its
/// inside is visible here but the bindings that `context_bindings` gives.
#[verifier::external_type_specification]
#[verifier::external_body]
pub struct ExContext(tera::Context);

/// `tera::Error`, carried from the template engine to the caller as it is.
#[verifier::external_type_specification]
#[verifier::external_body]
pub struct ExTeraError(tera::Error);

/// The names of the templates that a template engine holds.
pub uninterp spec fn loaded_templates(engine: tera::Tera) -> Set<Seq<char>>;

/// The endings of the template names for which a template engine escapes
/// the values it inserts.
pub uninterp spec fn autoescape_suffixes(engine: tera::Tera) -> Seq<Seq<char>>;

/// The values that a rendering context binds, by name. A value is a text or
/// absent.
pub uninterp spec fn context_bindings(context: tera::Context) -> Map<Seq<char>, Option<Seq<char>>>;

/// What `tera::Template::new` makes of the template `source` under the name
/// `name`: nothing if the source does not parse, else the name of the
/// template that it extends, if it extends one.
pub uninterp spec fn declared_parent(name: Seq<char>, source: Seq<char>) -> Option<
    Option<Seq<char>>,
>;

/// Whether `tera::Tera::add_raw_templates` accepts `templates`, each a name
/// and a source text, on an engine that holds no template yet.
pub uninterp spec fn templates_compile(templates: Seq<(Seq<char>, Seq<char>)>) -> bool;

/// The name of the template that every page is rendered through.
pub open spec fn base_template() -> Seq<char> {
    seq!['b', 'a', 's', 'e', '.', 'h', 't', 'm', 'l']
}

/// The name under which a template finds the page's title.
pub open spec fn title_key() -> Seq<char> {
    seq!['t', 'i', 't', 'l', 'e']
}

/// The name under which a template finds the page's HTML fragment.
pub open spec fn content_key() -> Seq<char> {
    seq!['c', 'o', 'n', 't', 'e', 'n', 't']
}

/// The bindings of a context that binds nothing.
pub open spec fn no_bindings() -> Map<Seq<char>, Option<Seq<char>>> {
    Map::empty()
}

/// The names held by an engine that holds no template.
pub open spec fn no_templates() -> Set<Seq<char>> {
    Set::empty()
}

/// What a template can refer to while rendering `page`: `title`, the page's
/// title or an absent value, and `content`, the page's HTML fragment.
pub open spec fn page_bindings(page: PageModel) -> Map<Seq<char>, Option<Seq<char>>> {
    no_bindings().insert(title_key(), page.metadata.title).insert(content_key(), Some(page.html))
}

/// A template as text, under the name by which other templates and the
/// renderer refer to it.
#[derive(Debug)]
pub struct TemplateSource {
    pub name: String,
    pub source: String,
}

/// Why a set of templates was not loaded.
#[derive(Debug)]
pub enum LoadError {
    /// No template of the set is named `base.html`.
    MissingBase,
    /// The named template does not parse.
    Syntax { template: String, error: tera::Error },
    /// The chain of templates that the named template extends runs in a
    /// circle.
    CircularExtends { template: String },
    /// The template engine refused the set.
    Engine(tera::Error),
}

/// The names that `templates` go by.
pub open spec fn source_names(templates: Seq<TemplateSource>) -> Set<Seq<char>> {
    Set::new(
        |name: Seq<char>|
            exists|i: int| 0 <= i < templates.len() && (#[trigger] templates[i]).name@ == name,
    )
}

/// Each of `templates` as a pair of mathematical texts: its name, then its
/// source.
pub open spec fn template_texts(templates: Seq<TemplateSource>) -> Seq<(Seq<char>, Seq<char>)> {
    templates.map_values(|template: TemplateSource| (template.name@, template.source@))
}

/// Whether `template` parses.
pub open spec fn parses(template: TemplateSource) -> bool {
    declared_parent(template.name@, template.source@) is Some
}

/// The name of the template that `template` extends, if it parses and
/// extends one.
pub open spec fn parent_of(template: TemplateSource) -> Option<Seq<char>> {
    match declared_parent(template.name@, template.source@) {
        Some(parent) => parent,
        None => None,
    }
}

/// The position of the template that `name` refers to: of several with that
/// name, the last one counts.
pub open spec fn holder(templates: Seq<TemplateSource>, name: Seq<char>) -> Option<int>
    decreases templates.len(),
{
    if templates.len() == 0 {
        None
    } else if templates.last().name@ == name {
        Some(templates.len() - 1)
    } else {
        holder(templates.drop_last(), name)
    }
}

/// Where the template at `at` leads: to the position of the template it
/// extends, if that one is in the set.
pub open spec fn link_of(templates: Seq<TemplateSource>, at: int) -> Option<usize> {
    match parent_of(templates[at]) {
        Some(parent) => match holder(templates, parent) {
            Some(position) => Some(position as usize),
            None => None,
        },
        None => None,
    }
}

/// The links of inheritance within `templates`.
pub open spec fn template_links(templates: Seq<TemplateSource>) -> Seq<Option<usize>> {
    Seq::new(templates.len(), |at: int| link_of(templates, at))
}

/// Whether the template at `at` is the first of `templates` that does not
/// parse.
pub open spec fn first_unparsed(templates: Seq<TemplateSource>, at: int) -> bool {
    &&& 0 <= at < templates.len()
    &&& !parses(templates[at])
    &&& forall|k: int| 0 <= k < at ==> parses(#[trigger] templates[k])
}

/// Whether the template at `at` is the first of `templates` whose chain of
/// inheritance never ends.
pub open spec fn first_endless(templates: Seq<TemplateSource>, at: int) -> bool {
    &&& 0 <= at < templates.len()
    &&& !chain_ends(template_links(templates), at)
    &&& forall|k: int| 0 <= k < at ==> chain_ends(template_links(templates), k)
}

/// Whether `loaded` is what loading `templates` owes. A set without a base
/// template is refused first, then one with a template that does not parse,
/// then one in which a chain of inheritance runs in a circle. Any other set
/// goes to the template engine, whose answer decides.
pub open spec fn load_matches(loaded: Result<Renderer, LoadError>, templates: Seq<TemplateSource>) -> bool {
    let has_base = source_names(templates).contains(base_template());
    let all_parse = forall|k: int| 0 <= k < templates.len() ==> parses(#[trigger] templates[k]);
    let acyclic = chains_end(template_links(templates));
    match loaded {
        Ok(renderer) => {
            &&& has_base
            &&& all_parse
            &&& acyclic
            &&& templates_compile(template_texts(templates))
            &&& renderer.template_names() == source_names(templates)
            &&& renderer.escaped_suffixes().len() == 0
        },
        Err(LoadError::MissingBase) => !has_base,
        Err(LoadError::Syntax { template, .. }) => {
            &&& has_base
            &&& exists|at: int| #[trigger]
                first_unparsed(templates, at) && templates[at].name@ == template@
        },
        Err(LoadError::CircularExtends { template }) => {
            &&& has_base
            &&& all_parse
            &&& exists|at: int| #[trigger]
                first_endless(templates, at) && templates[at].name@ == template@
        },
        Err(LoadError::Engine(_)) => {
            &&& has_base
            &&& all_parse
            &&& acyclic
            &&& !templates_compile(template_texts(templates))
        },
    }
}

/// Calls `tera::Tera::default`. Trusted: the new engine holds no template.
#[verifier::external_body]
fn new_engine() -> (engine: tera::Tera)
    ensures
        loaded_templates(engine) == no_templates(),
{
    tera::Tera::default()
}

/// Calls `tera::Tera::autoescape_on` with no suffix. Trusted: the engine
/// then escapes for no template name, and holds the templates it held.
#[verifier::external_body]
fn escape_nothing(engine: &mut tera::Tera)
    ensures
        autoescape_suffixes(*final(engine)).len() == 0,
        loaded_templates(*final(engine)) == loaded_templates(*old(engine)),
{
    engine.autoescape_on(Vec::new());
}

/// Parses one template with `tera::Template::new` and hands back the name
/// of the template it extends. Trusted: the outcome depends on the name and
/// the source alone.
#[verifier::external_body]
fn parse_parent(name: &str, source: &str) -> (parsed: Result<Option<String>, tera::Error>)
    ensures
        match parsed {
            Ok(Some(parent)) => declared_parent(name@, source@) == Some(Some(parent@)),
            Ok(None) => declared_parent(name@, source@) == Some(None::<Seq<char>>),
            Err(_) => declared_parent(name@, source@) is None,
        },
{
    let template = tera::Template::new(name, None, source)?;
    Ok(template.parent)
}

/// Hands all of `templates` to an engine in one call of
/// `tera::Tera::add_raw_templates`. The engine must hold no template yet,
/// and no chain of inheritance within `templates` may run in a circle: on
/// such a set the call may not return. Trusted: whether the call succeeds
/// depends on the names and sources alone; when it succeeds, the engine
/// holds a template under each of the given names and under no other; and
/// the engine escapes as before.
#[verifier::external_body]
fn add_templates(engine: &mut tera::Tera, templates: &Vec<TemplateSource>) -> (added: Result<
    (),
    tera::Error,
>)
    requires
        loaded_templates(*old(engine)) == no_templates(),
        chains_end(template_links(templates@)),
    ensures
        added is Ok <==> templates_compile(template_texts(templates@)),
        added is Ok ==> loaded_templates(*final(engine)) == source_names(templates@),
        autoescape_suffixes(*final(engine)) == autoescape_suffixes(*old(engine)),
{
    engine.add_raw_templates(
        templates.iter().map(|template| (template.name.as_str(), template.source.as_str())),
    )
}

/// Calls `tera::Context::new`. Trusted: the new context binds nothing.
#[verifier::external_body]
fn empty_context() -> (context: tera::Context)
    ensures
        context_bindings(context) == no_bindings(),
{
    tera::Context::new()
}

/// Calls `tera::Context::insert` with an optional text. Trusted: the context
/// then binds `key` to that text, or to an absent value, and everything else
/// as before.
#[verifier::external_body]
fn bind(context: &mut tera::Context, key: &str, value: Option<&str>)
    ensures
        context_bindings(*final(context)) == context_bindings(*old(context)).insert(
            key@,
            match value {
                Some(text) => Some(text@),
                None => None,
            },
        ),
{
    context.insert(key, &value);
}

/// Builds the context that templates see while rendering `page`.
pub fn page_context(page: &Page) -> (context: tera::Context)
    ensures
        context_bindings(context) == page_bindings(page@),
{
    let mut context = empty_context();
    proof {
        reveal_strlit("title");
        reveal_strlit("content");
        assert("title"@ =~= title_key());
        assert("content"@ =~= content_key());
    }
    let title: Option<&str> = match &page.metadata.title {
        Some(text) => Some(text.as_str()),
        None => None,
    };
    bind(&mut context, "title", title);
    bind(&mut context, "content", Some(page.html.as_str()));
    context
}

/// Finds the template that `name` refers to.
fn find_holder(templates: &Vec<TemplateSource>, name: &String) -> (found: Option<usize>)
    ensures
        match found {
            Some(position) => holder(templates@, name@) == Some(position as int),
            None => holder(templates@, name@) is None,
        },
{
    let mut i: usize = templates.len();
    assert(templates@.take(i as int) =~= templates@);
    while i > 0
        invariant
            i <= templates.len(),
            holder(templates@, name@) == holder(templates@.take(i as int), name@),
        decreases i,
    {
        let ghost head = templates@.take(i as int);
        assert(head.last() == templates@[i - 1]);
        assert(head.drop_last() =~= templates@.take(i - 1));
        if templates[i - 1].name == *name {
            return Some(i - 1);
        }
        i = i - 1;
    }
    assert(templates@.take(0).len() == 0);
    None
}

/// `holder` finds a template exactly when one goes by the name.
pub proof fn lemma_holder(templates: Seq<TemplateSource>, name: Seq<char>)
    ensures
        match holder(templates, name) {
            Some(position) => {
                &&& 0 <= position < templates.len()
                &&& templates[position].name@ == name
                &&& forall|k: int|
                    position < k < templates.len() ==> (#[trigger] templates[k]).name@ != name
            },
            None => !source_names(templates).contains(name),
        },
    decreases templates.len(),
{
    if templates.len() > 0 && templates.last().name@ != name {
        let head = templates.drop_last();
        lemma_holder(head, name);
        assert forall|k: int| 0 <= k < head.len() implies head[k] == templates[k] by {}
        if holder(head, name) is None {
            if source_names(templates).contains(name) {
                let i = choose|i: int|
                    0 <= i < templates.len() && (#[trigger] templates[i]).name@ == name;
                assert(head[i].name@ == name);
                assert(source_names(head).contains(name));
            }
        }
    }
}

/// What a caller is to have the template engine do for one page: render
/// the template named `template` of `engine`, with `context`.
pub struct RenderRequest<'a> {
    pub engine: &'a tera::Tera,
    pub template: String,
    pub context: tera::Context,
}

/// A compiled set of templates, loaded once and then only read.
pub struct Renderer {
    tera: tera::Tera,
}

impl Renderer {
    /// The template engine of this renderer.
    pub closed spec fn engine(&self) -> tera::Tera {
        self.tera
    }

    /// The names of the templates that this renderer holds.
    pub open spec fn template_names(&self) -> Set<Seq<char>> {
        loaded_templates(self.engine())
    }

    /// The endings of the template names for which values are escaped
    /// when a template of this renderer inserts them.
    pub open spec fn escaped_suffixes(&self) -> Seq<Seq<char>> {
        autoescape_suffixes(self.engine())
    }

    /// Compiles `templates` into a renderer that escapes nothing: a bound
    /// HTML fragment is inserted as markup. A set without a template named
    /// `base.html`, with a template that does not parse, or with templates
    /// that extend each other in a circle is refused; any other set is
    /// loaded exactly when the template engine accepts it.
    pub fn new(templates: &Vec<TemplateSource>) -> (loaded: Result<Renderer, LoadError>)
        ensures
            load_matches(loaded, templates@),
    {
        proof {
            reveal_strlit("base.html");
            assert("base.html"@ =~= base_template());
            lemma_holder(templates@, base_template());
        }
        let base = "base.html".to_owned();
        if find_holder(templates, &base).is_none() {
            return Err(LoadError::MissingBase);
        }
        let count = templates.len();
        let mut links: Vec<Option<usize>> = Vec::new();
        let mut i: usize = 0;
        while i < count
            invariant
                count == templates.len(),
                i <= count,
                links.len() == i,
                source_names(templates@).contains(base_template()),
                forall|k: int| 0 <= k < i ==> parses(#[trigger] templates@[k]),
                forall|k: int| 0 <= k < i ==> links@[k] == link_of(templates@, k),
            decreases count - i,
        {
            let template = &templates[i];
            match parse_parent(template.name.as_str(), template.source.as_str()) {
                Err(error) => {
                    assert(first_unparsed(templates@, i as int));
                    return Err(LoadError::Syntax { template: template.name.clone(), error });
                },
                Ok(None) => {
                    links.push(None);
                },
                Ok(Some(parent)) => {
                    let link = find_holder(templates, &parent);
                    links.push(link);
                },
            }
            i = i + 1;
        }
        assert(links@ =~= template_links(templates@));
        match endless_chain(&links) {
            Some(start) => {
                assert(first_endless(templates@, start as int));
                return Err(LoadError::CircularExtends { template: templates[start].name.clone() });
            },
            None => {},
        }
        let mut tera = new_engine();
        escape_nothing(&mut tera);
        match add_templates(&mut tera, templates) {
            Ok(()) => Ok(Renderer { tera }),
            Err(error) => Err(LoadError::Engine(error)),
        }
    }

    /// Prepares the rendering of `page`: the base template of this
    /// renderer, with the page's title and HTML fragment bound as `title`
    /// and `content`. The caller has the engine render it, and hands the
    /// engine's answer on.
    pub fn render_page<'a>(&'a self, page: &Page) -> (request: RenderRequest<'a>)
        ensures
            *request.engine == self.engine(),
            request.template@ == base_template(),
            context_bindings(request.context) == page_bindings(page@),
    {
        proof {
            reveal_strlit("base.html");
            assert("base.html"@ =~= base_template());
        }
        RenderRequest {
            engine: &self.tera,
            template: "base.html".to_owned(),
            context: page_context(page),
        }
    }
}

} // verus!

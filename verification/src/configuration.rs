//! Datasources: where the data of a datamodel lives.

use crate::ast;
use crate::ast::{ArgumentView, ConfigBlockView, Span, TopView, ValueView};
use crate::errors::{ErrorCollection, ErrorView, ValidationError};
use crate::gather::gather;
use crate::text::{joined, str_eq};
use crate::validator::directive::{
    argument_named, as_string, directive_error, missing_message, string_of, Args,
};
use vstd::prelude::*;

verus! {

/// A configured datasource. Its name is the namespace of the directives
/// that it brings.
pub trait Source {
    /// The name the datasource was declared under.
    fn name(&self) -> &String;

    /// The kind of database: `postgresql`, `mysql` or `sqlite`.
    fn connector_type(&self) -> &str;

    /// Where the database is found.
    fn url(&self) -> &String;
}

/// The kinds of databases.
#[derive(Clone, Copy, Debug, PartialEq, Eq, Structural)]
pub enum Provider {
    Postgresql,
    Mysql,
    Sqlite,
}

/// A datasource as a source text declares it.
#[derive(Clone, Debug, PartialEq)]
pub struct Datasource {
    pub name: String,
    pub provider: Provider,
    pub url: String,
}

/// A datasource, as plain values.
pub struct DatasourceView {
    pub name: Seq<char>,
    pub provider: Provider,
    pub url: Seq<char>,
}

impl View for Datasource {
    type V = DatasourceView;

    open spec fn view(&self) -> DatasourceView {
        DatasourceView { name: self.name@, provider: self.provider, url: self.url@ }
    }
}

impl DeepView for Datasource {
    type V = DatasourceView;

    open spec fn deep_view(&self) -> DatasourceView {
        self@
    }
}

/// The message for a provider that is not known.
pub const UNKNOWN_PROVIDER: &'static str =
    "The provider of a datasource is one of postgresql, mysql and sqlite.";

/// What the kinds of databases are called.
pub open spec fn provider_name(provider: Provider) -> Seq<char> {
    match provider {
        Provider::Postgresql => "postgresql"@,
        Provider::Mysql => "mysql"@,
        Provider::Sqlite => "sqlite"@,
    }
}

/// The kind of database called `name`.
pub open spec fn provider_named(name: Seq<char>) -> Option<Provider> {
    if name == "postgresql"@ {
        Some(Provider::Postgresql)
    } else if name == "mysql"@ {
        Some(Provider::Mysql)
    } else if name == "sqlite"@ {
        Some(Provider::Sqlite)
    } else {
        None
    }
}

/// The text of the property `name` of a datasource at `span`.
pub open spec fn property(properties: Seq<ArgumentView>, name: Seq<char>, span: Span) -> Result<
    Seq<char>,
    ErrorView,
> {
    match argument_named(properties, name) {
        Some(argument) => string_of(argument.value, "datasource"@),
        None => Err(directive_error("datasource"@, missing_message(name), span)),
    }
}

/// The datasource that `block` declares, or why it declares none: its
/// provider or its url is missing or no string, or its provider is not
/// known.
pub open spec fn declared_source(block: ConfigBlockView) -> Result<DatasourceView, ErrorView> {
    match property(block.properties, "provider"@, block.span) {
        Ok(provider) => match provider_named(provider) {
            Some(known) => match property(block.properties, "url"@, block.span) {
                Ok(url) => Ok(DatasourceView { name: block.name, provider: known, url }),
                Err(e) => Err(e),
            },
            None => Err(
                directive_error(
                    "datasource"@,
                    UNKNOWN_PROVIDER@,
                    crate::validator::directive::span_of(
                        argument_named(block.properties, "provider"@)->0.value,
                    ),
                ),
            ),
        },
        Err(e) => Err(e),
    }
}

/// The datasources that declaration `i` of `tree` declares.
pub open spec fn source_at(tree: Seq<TopView>) -> spec_fn(int) -> Seq<DatasourceView> {
    |i: int|
        match tree[i] {
            TopView::Source(block) => match declared_source(block) {
                Ok(source) => seq![source],
                Err(_) => Seq::empty(),
            },
            _ => Seq::empty(),
        }
}

/// The diagnostics of the datasource that declaration `i` of `tree`
/// declares.
pub open spec fn source_error_at(tree: Seq<TopView>) -> spec_fn(int) -> Seq<ErrorView> {
    |i: int|
        match tree[i] {
            TopView::Source(block) => match declared_source(block) {
                Ok(_) => Seq::empty(),
                Err(e) => seq![e],
            },
            _ => Seq::empty(),
        }
}

/// The datasources that `tree` declares.
pub open spec fn declared_sources(tree: Seq<TopView>) -> Seq<DatasourceView> {
    gather(tree.len(), source_at(tree))
}

/// The diagnostics of the datasources that `tree` declares.
pub open spec fn source_errors(tree: Seq<TopView>) -> Seq<ErrorView> {
    gather(tree.len(), source_error_at(tree))
}

impl Source for Datasource {
    fn name(&self) -> (name: &String)
        ensures
            name == self.name,
    {
        &self.name
    }

    fn connector_type(&self) -> (kind: &str)
        ensures
            kind@ == provider_name(self.provider),
    {
        match self.provider {
            Provider::Postgresql => "postgresql",
            Provider::Mysql => "mysql",
            Provider::Sqlite => "sqlite",
        }
    }

    fn url(&self) -> (url: &String)
        ensures
            url == self.url,
    {
        &self.url
    }
}

/// The text of the property `name` of `block`, see [`property`].
fn read_property(block: &ast::ConfigBlock, name: &str) -> (result: Result<String, ValidationError>)
    ensures
        match result {
            Ok(text) => property(block@.properties, name@, block.span) == Ok::<
                Seq<char>,
                ErrorView,
            >(text@),
            Err(e) => property(block@.properties, name@, block.span) == Err::<
                Seq<char>,
                ErrorView,
            >(e@),
        },
{
    let args = Args::new(&block.properties, block.span);
    match args.find(name) {
        Some(argument) => as_string(&argument.value, "datasource"),
        None => Err(
            ValidationError::new_directive_validation_error(
                joined("Argument \"", name, "\" is missing.").as_str(),
                "datasource",
                block.span,
            ),
        ),
    }
}

/// The datasource that `block` declares, see [`declared_source`].
pub fn load_source(block: &ast::ConfigBlock) -> (result: Result<Datasource, ValidationError>)
    ensures
        match result {
            Ok(source) => declared_source(block@) == Ok::<DatasourceView, ErrorView>(source@),
            Err(e) => declared_source(block@) == Err::<DatasourceView, ErrorView>(e@),
        },
{
    let provider = match read_property(block, "provider") {
        Ok(provider) => provider,
        Err(e) => {
            return Err(e);
        },
    };
    let known = if str_eq(provider.as_str(), "postgresql") {
        Provider::Postgresql
    } else if str_eq(provider.as_str(), "mysql") {
        Provider::Mysql
    } else if str_eq(provider.as_str(), "sqlite") {
        Provider::Sqlite
    } else {
        let args = Args::new(&block.properties, block.span);
        let span = match args.find("provider") {
            Some(argument) => crate::validator::directive::value_span(&argument.value),
            None => block.span,
        };
        return Err(
            ValidationError::new_directive_validation_error(UNKNOWN_PROVIDER, "datasource", span),
        );
    };
    let url = match read_property(block, "url") {
        Ok(url) => url,
        Err(e) => {
            return Err(e);
        },
    };
    Ok(Datasource { name: block.name.clone(), provider: known, url })
}

/// The datasources that `tree` declares, see [`declared_sources`]. Where a
/// declaration declares none, the diagnostics of all such declarations are
/// given instead.
pub fn load_sources(tree: &ast::Datamodel) -> (result: Result<Vec<Datasource>, ErrorCollection>)
    ensures
        match result {
            Ok(sources) => source_errors(tree@).len() == 0 && sources.deep_view()
                == declared_sources(tree@),
            Err(errors) => errors@.len() > 0 && errors@ == source_errors(tree@),
        },
{
    let mut sources: Vec<Datasource> = Vec::new();
    let mut errors = ErrorCollection::new();
    let ghost source = source_at(tree@);
    let ghost error = source_error_at(tree@);
    let mut i: usize = 0;
    assert(sources.deep_view() =~= gather(0, source));
    assert(errors@ =~= gather(0, error));
    while i < tree.models.len()
        invariant
            i <= tree.models@.len(),
            source == source_at(tree@),
            error == source_error_at(tree@),
            sources.deep_view() == gather(i as nat, source),
            errors@ == gather(i as nat, error),
        decreases tree.models@.len() - i,
    {
        let ghost loaded = sources.deep_view();
        let ghost found = errors@;
        assert(tree@[i as int] == tree.models@[i as int]@);
        if let ast::Top::Source(block) = &tree.models[i] {
            match load_source(block) {
                Ok(datasource) => {
                    sources.push(datasource);
                },
                Err(e) => {
                    errors.push(e);
                },
            }
        }
        assert(sources.deep_view() =~= loaded + source(i as int));
        assert(errors@ =~= found + error(i as int));
        i += 1;
    }
    if errors.has_errors() {
        Err(errors)
    } else {
        Ok(sources)
    }
}

} // verus!

use datamodel::ast::Span;
use datamodel::configuration::{load_sources, Datasource, Provider, Source};
use datamodel::errors::ValidationError;

fn span_of(text: &str, part: &str) -> Span {
    let start = text.find(part).unwrap();
    Span::new(start, start + part.len())
}

#[test]
fn datasources_are_loaded_with_provider_and_url() {
    let text = r#"
        datasource db {
            provider = "postgresql"
            url = "postgresql://localhost:5432"
        }
        source files {
            provider = "sqlite"
            url = "file:dev.db"
        }
        model A { id Int @id }
    "#;
    let tree = datamodel::parser::parse(text).unwrap();
    let sources = load_sources(&tree).unwrap();
    assert_eq!(
        sources,
        vec![
            Datasource {
                name: "db".to_string(),
                provider: Provider::Postgresql,
                url: "postgresql://localhost:5432".to_string(),
            },
            Datasource {
                name: "files".to_string(),
                provider: Provider::Sqlite,
                url: "file:dev.db".to_string(),
            },
        ]
    );
    assert_eq!(sources[0].name(), "db");
    assert_eq!(sources[0].connector_type(), "postgresql");
    assert_eq!(sources[1].connector_type(), "sqlite");
    assert_eq!(sources[1].url(), "file:dev.db");
    assert!(datamodel::parse(text).is_ok());
    let boxed: Vec<Box<dyn Source>> = sources
        .into_iter()
        .map(|source| Box::new(source) as Box<dyn Source>)
        .collect();
    let _validator = datamodel::validator::Validator::with_sources(&boxed);
}

#[test]
fn a_datasource_needs_a_known_provider_and_a_url() {
    let text = r#"datasource a { provider = "oracle" url = "x" } datasource b { url = "x" } datasource c { provider = "mysql" } datasource d { provider = mysql url = "x" }"#;
    let errors = datamodel::parse(text).unwrap_err().errors;
    assert_eq!(
        errors,
        vec![
            ValidationError::new_directive_validation_error(
                "The provider of a datasource is one of postgresql, mysql and sqlite.",
                "datasource",
                span_of(text, "\"oracle\""),
            ),
            ValidationError::new_directive_validation_error(
                "Argument \"provider\" is missing.",
                "datasource",
                span_of(text, "datasource b { url = \"x\" }"),
            ),
            ValidationError::new_directive_validation_error(
                "Argument \"url\" is missing.",
                "datasource",
                span_of(text, "datasource c { provider = \"mysql\" }"),
            ),
            ValidationError::new_directive_validation_error(
                "Expected a string value.",
                "datasource",
                span_of(text, "mysql url").start_at_len(5),
            ),
        ]
    );
}

trait SpanPart {
    fn start_at_len(&self, len: usize) -> Span;
}

impl SpanPart for Span {
    fn start_at_len(&self, len: usize) -> Span {
        Span::new(self.start, self.start + len)
    }
}

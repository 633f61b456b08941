use lai::catalog::Model;
use lai::catalog::Models;
use lai::catalog::Parameter;
use lai::codec::encode_catalog;
use lai::codec::parse_catalog;

fn param(switch: &str, explanation: &str) -> Parameter {
    Parameter { switch: String::from(switch), explanation: String::from(explanation) }
}

fn sample() -> Models {
    Models {
        available: vec![Model {
            name: String::from("Llava"),
            version: String::from("1.5"),
            url: String::from("https://example.org/llava-main.llamafile"),
            server_url: String::from("https://example.org/llava-server.llamafile"),
            parameters: vec![param("p", "prompt")],
        }],
    }
}

#[test]
fn empty_catalog_encodes_to_empty_list() {
    let c = Models::default();
    assert_eq!(encode_catalog(&c), String::from("{\"available\":[]}"));
}

#[test]
fn one_model_encodes_exactly() {
    let encoded = encode_catalog(&sample());
    let expected = "{\"available\":[{\"name\":\"Llava\",\"version\":\"1.5\",\"url\":\"https://example.org/llava-main.llamafile\",\"server-url\":\"https://example.org/llava-server.llamafile\",\"parameters\":[{\"switch\":\"p\",\"explanation\":\"prompt\"}]}]}";
    assert_eq!(encoded, String::from(expected));
}

#[test]
fn round_trip_empty_catalog() {
    let c = Models::default();
    let back = parse_catalog(&encode_catalog(&c)).expect("the written form reads back");
    assert_eq!(back, c);
}

#[test]
fn round_trip_sample_catalog() {
    let c = sample();
    let back = parse_catalog(&encode_catalog(&c)).expect("the written form reads back");
    assert_eq!(back, c);
}

#[test]
fn round_trip_many_models_and_parameters() {
    let c = Models {
        available: vec![
            Model {
                name: String::from("A"),
                version: String::from(""),
                url: String::from("u/a"),
                server_url: String::from("u/as"),
                parameters: vec![],
            },
            Model {
                name: String::from("B"),
                version: String::from("2"),
                url: String::from("u/b"),
                server_url: String::from("u/bs"),
                parameters: vec![param("temp", "sampling temperature"), param("p", "prompt")],
            },
        ],
    };
    let back = parse_catalog(&encode_catalog(&c)).expect("the written form reads back");
    assert_eq!(back, c);
}

#[test]
fn round_trip_strings_needing_escapes() {
    let c = Models {
        available: vec![Model {
            name: String::from("quo\"te and back\\slash"),
            version: String::from("\\\\\"\""),
            url: String::from("u"),
            server_url: String::from(""),
            parameters: vec![param("s\"w", "say \"hi\" \\ twice")],
        }],
    };
    let encoded = encode_catalog(&c);
    let back = parse_catalog(&encoded).expect("escaped strings read back");
    assert_eq!(back, c);
}

#[test]
fn malformed_documents_are_rejected() {
    assert!(parse_catalog("").is_none());
    assert!(parse_catalog("{}").is_none());
    assert!(parse_catalog("{\"available\":}").is_none());
    assert!(parse_catalog("{\"available\":[").is_none());
    assert!(parse_catalog("{\"available\":[]").is_none());
    assert!(parse_catalog("{\"available\":[]}trailing").is_none());
    assert!(parse_catalog("{\"available\":[{\"name\":\"A\"}]}").is_none());
    assert!(parse_catalog("{\"available\":[{\"name\":\"\\x\"}]}").is_none());
}

#[test]
fn reading_is_not_the_identity_on_the_text() {
    let encoded = encode_catalog(&sample());
    let back = parse_catalog(&encoded).expect("the written form reads back");
    assert_eq!(back.available[0].name, String::from("Llava"));
    assert_ne!(encoded, String::from("Llava"));
}

use sval_buffer::bench_data::{borrowed_data, owned_data, SeverityNumber};
use sval_buffer::token::Token;
use sval_buffer::value::part::{Part, TextPart};
use sval_buffer::ValueBuf;

fn debug<T: std::fmt::Debug + ?Sized>(v: &T) -> String {
    format!("{:?}", v)
}

#[test]
fn sample_documents_stream_alike() {
    let owned = owned_data();
    let borrowed = borrowed_data();

    let owned_tokens = owned.to_tokens();
    let borrowed_tokens = borrowed.to_tokens();

    // The same fields, under each type's own name
    assert_eq!(owned_tokens.len(), borrowed_tokens.len());
    let n = owned_tokens.len();
    assert_eq!(debug(&owned_tokens[1..n - 1]), debug(&borrowed_tokens[1..n - 1]));
    assert!(matches!(owned_tokens[5], Token::TextBegin(Some(25))));
    assert!(matches!(owned_tokens[6], Token::TextFragment("A very important document")));
}

#[test]
fn sample_document_buffers_and_owns() {
    let data = borrowed_data();
    let tokens = data.to_tokens();

    let buf = ValueBuf::collect(&tokens).unwrap();
    assert!(buf.is_complete());

    // A record header, three field headers with their values, and a
    // sequence of three values
    assert_eq!(13, buf.parts().len());

    // The title is too long to copy in, so it and everything after it stays borrowed
    assert!(buf.parts().is_borrowed());
    assert!(matches!(buf.parts().get(4), Part::Text(TextPart::Borrowed(_))));
    assert!(matches!(buf.parts().get(8), Part::Text(TextPart::Borrowed("#1"))));

    let owned = buf.into_owned().unwrap();
    assert!(!owned.parts().is_borrowed());

    let expected = ValueBuf::collect_owned(&tokens).unwrap();
    assert_eq!(debug(&expected.to_tokens()), debug(&owned.to_tokens()));
}

#[test]
fn severity_numbers() {
    let all = [
        (SeverityNumber::Unspecified, 0),
        (SeverityNumber::Trace, 1),
        (SeverityNumber::Debug, 5),
        (SeverityNumber::Info, 9),
        (SeverityNumber::Warn, 13),
        (SeverityNumber::Error, 17),
        (SeverityNumber::Fatal, 21),
    ];

    for (severity, number) in all {
        assert_eq!(number, severity.number());
    }
}

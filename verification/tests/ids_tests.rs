use spine::ids::{NodeId, NodeIdParseError};

#[test]
fn node_id_parse_reads_dotted_positive_segments() {
    assert_eq!(NodeId::parse("1.2.30"), Ok(NodeId::from_segments(vec![1, 2, 30])));
    assert_eq!(NodeId::parse("+7"), Ok(NodeId::from_segments(vec![7])));
    assert_eq!(NodeId::parse("4294967295"), Ok(NodeId::from_segments(vec![u32::MAX])));
}

#[test]
fn node_id_parse_names_the_first_bad_segment() {
    assert_eq!(NodeId::parse(""), Err(NodeIdParseError::Empty));
    assert_eq!(NodeId::parse("1..2"), Err(NodeIdParseError::EmptySegment));
    assert_eq!(NodeId::parse("1."), Err(NodeIdParseError::EmptySegment));
    assert_eq!(NodeId::parse("1.0"), Err(NodeIdParseError::ZeroSegment));
    assert_eq!(NodeId::parse("root"), Err(NodeIdParseError::InvalidSegment("root".to_string())));
    assert_eq!(NodeId::parse("4294967296"), Err(NodeIdParseError::InvalidSegment("4294967296".to_string())));
    assert_eq!(NodeId::parse("x.0"), Err(NodeIdParseError::InvalidSegment("x".to_string())));
}

#[test]
fn node_id_text_reads_back_to_the_same_id() {
    let id = NodeId::from_segments(vec![3, 14, 15]);
    assert_eq!(id.to_string(), "3.14.15");
    assert_eq!(NodeId::parse(&id.to_string()), Ok(id));
}

use trdl::TrdlError;

#[test]
fn description_of_each_error() {
    assert_eq!(TrdlError::ShaderIo("file not found".to_string()).description(), "file not found");
    assert_eq!(TrdlError::NullString.description(), "Shader string was null");
    assert_eq!(TrdlError::CompileError("0:1 bad token".to_string()).description(), "0:1 bad token");
    assert_eq!(TrdlError::InvalidCompileError.description(), "An error occurred during shader compile");
    assert_eq!(TrdlError::LinkError("unresolved".to_string()).description(), "unresolved");
    assert_eq!(TrdlError::InvalidLinkError.description(), "An error occurred during shader program link");
    assert_eq!(TrdlError::NotEnoughVertices.description(), "A polygon must have 3 or more points");
    assert_eq!(TrdlError::NonSimplePolygon.description(), "Error triangulating polygon, is it non-simple?");
    assert_eq!(TrdlError::NoVisibleGeometry.description(), "Either the stroke or fill (or both) must be set");
    assert_eq!(TrdlError::ArcToIsLineTo.description(), "One of the radii is 0, so this is just a line");
}

#[test]
fn only_a_read_failure_has_a_cause() {
    assert_eq!(TrdlError::ShaderIo("denied".to_string()).cause(), Some("denied".to_string()));
    assert_eq!(TrdlError::CompileError("log".to_string()).cause(), None);
    assert_eq!(TrdlError::NonSimplePolygon.cause(), None);
}

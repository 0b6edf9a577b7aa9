use tuner::paths::{is_path_safe, resolve_components, validate_file_path, PathValidationError};

fn roots(v: &[&str]) -> Vec<String> {
    v.iter().map(|s| s.to_string()).collect()
}

#[test]
fn test_path_outside_all_roots() {
    let allowed_roots = roots(&["/tmp/allowed-root"]);
    let resolved_roots = vec![Some("/tmp/allowed-root".to_string())];
    let res = validate_file_path("/etc/passwd", Ok("/etc/passwd".to_string()), &resolved_roots, &allowed_roots);
    assert!(matches!(res, Err(PathValidationError::OutsideAllowedRoots(_, _))));
}

#[test]
fn test_null_byte_in_path() {
    let allowed_roots = roots(&["/tmp/allowed-root"]);
    let resolved_roots = vec![Some("/tmp/allowed-root".to_string())];
    let res = validate_file_path("/tmp/evil\x00file", Err("bad path".to_string()), &resolved_roots, &allowed_roots);
    if let Err(PathValidationError::NullByte(raw)) = res {
        assert!(raw.contains("evil"));
    } else {
        panic!("Expected NullByte, got {:?}", res);
    }
}

#[test]
fn test_control_characters_in_path() {
    let allowed_roots = roots(&["/tmp/allowed-root"]);
    let resolved_roots = vec![Some("/tmp/allowed-root".to_string())];
    let res = validate_file_path("/tmp/evil\x01file", Ok("/tmp/evil\x01file".to_string()), &resolved_roots, &allowed_roots);
    if let Err(PathValidationError::ControlCharacters(raw)) = res {
        assert!(raw.contains("evil"));
    } else {
        panic!("Expected ControlCharacters, got {:?}", res);
    }
}

#[test]
fn test_is_path_safe_returns_false() {
    let allowed_roots = roots(&["/tmp/allowed-root"]);
    let resolved_roots = vec![Some("/tmp/allowed-root".to_string())];
    assert!(!is_path_safe("/etc/shadow", Ok("/etc/shadow".to_string()), &resolved_roots, &allowed_roots));
}

#[test]
fn test_is_path_safe_no_exception_on_bad_path() {
    let allowed_roots = roots(&["/tmp/allowed-root"]);
    let resolved_roots = vec![Some("/tmp/allowed-root".to_string())];
    assert!(!is_path_safe("/nonexistent/\x00evil", Err("bad".to_string()), &resolved_roots, &allowed_roots));
}

#[test]
fn path_inside_a_root_is_accepted() {
    let allowed_roots = roots(&["/srv/a", "/srv/b"]);
    let resolved_roots = vec![None, Some("/srv/b".to_string())];
    let res = validate_file_path("/srv/b/x.txt", Ok("/srv/b/x.txt".to_string()), &resolved_roots, &allowed_roots);
    assert_eq!(res, Ok("/srv/b/x.txt".to_string()));
    // A common text prefix is not enough: whole components must match.
    let near = validate_file_path("/srv/bx/y", Ok("/srv/bx/y".to_string()), &resolved_roots, &allowed_roots);
    assert_eq!(near, Err(PathValidationError::OutsideAllowedRoots("/srv/bx/y".to_string(), allowed_roots.clone())));
    let io = validate_file_path("/srv/b/z", Err("denied".to_string()), &resolved_roots, &allowed_roots);
    assert_eq!(io, Err(PathValidationError::IoError("denied".to_string())));
    // A newline is not a refused control character.
    assert!(is_path_safe("/srv/b/a\nb", Ok("/srv/b/a\nb".to_string()), &resolved_roots, &allowed_roots));
}

#[test]
fn refusal_messages() {
    assert_eq!(PathValidationError::NullByte("a\0b".to_string()).message(), "Path contains null byte: \"a\\0b\"");
    assert_eq!(
        PathValidationError::ControlCharacters("x\u{1}".to_string()).message(),
        "Path contains control characters: \"x\\u{1}\""
    );
    assert_eq!(
        PathValidationError::OutsideAllowedRoots("/etc/passwd".to_string(), roots(&["/a", "/b"])).message(),
        "Path \"/etc/passwd\" is outside allowed roots: [\"/a\", \"/b\"]"
    );
    assert_eq!(PathValidationError::IoError("gone".to_string()).message(), "IO error: gone");
}

#[test]
fn missing_components_are_walked() {
    let comps = roots(&["a", ".", "b", "..", "c.txt"]);
    assert_eq!(resolve_components("/base", &comps), "/base/a/c.txt");
    assert_eq!(resolve_components("/", &roots(&["..", "x"])), "/x");
    assert_eq!(resolve_components("/base", &vec![]), "/base");
}

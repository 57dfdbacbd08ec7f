//! Manifest descriptor parsing: the grammar, the schema, and each rejection.
use cognito_core::manifest::ExtensionType;
use cognito_core::manifest::ManifestError;
use cognito_core::manifest::Permission;
use cognito_core::manifest::parse_manifest;

#[test]
fn full_manifest_parses_exactly() {
    let text = "# a demo extension\n\
                name = \"demo\"\n\
                version = \"0.1.0\"\n\
                author = \"someone\"\n\
                description = \"does demo things\"\n\
                entry_file = \"main.wasm\"\n\
                extension_type = \"wasm\"\n\
                permissions = [\"FileSystem\", \"Network\"]\n";
    let m = parse_manifest(text).unwrap();
    assert_eq!(m.name, "demo");
    assert_eq!(m.version, "0.1.0");
    assert_eq!(m.author, Some("someone".to_string()));
    assert_eq!(m.description, Some("does demo things".to_string()));
    assert_eq!(m.entry_file, "main.wasm");
    assert_eq!(m.extension_type, ExtensionType::WebAssembly);
    assert_eq!(m.permissions, vec![Permission::FileSystem, Permission::Network]);
}

#[test]
fn minimal_manifest_defaults_the_optional_fields() {
    let text = "name=\"m\"\nversion=\"1\"\nentry_file=\"m.wasm\"\npermissions=[]\n";
    let m = parse_manifest(text).unwrap();
    assert_eq!(m.author, None);
    assert_eq!(m.description, None);
    assert_eq!(m.extension_type, ExtensionType::WebAssembly);
    assert!(m.permissions.is_empty());
}

#[test]
fn escapes_comments_and_trailing_commas_are_read() {
    let text = "name = \"a \\\"quoted\\\" name\\n\" # trailing comment\n\
                \n\
                \t# indented comment\n\
                version = \"1 # not a comment\"\n\
                entry_file = \"dir\\\\main.wasm\"\n\
                permissions = [ \"System\" , \"Clipboard\" , ]\n";
    let m = parse_manifest(text).unwrap();
    assert_eq!(m.name, "a \"quoted\" name\n");
    assert_eq!(m.version, "1 # not a comment");
    assert_eq!(m.entry_file, "dir\\main.wasm");
    assert_eq!(m.permissions, vec![Permission::System, Permission::Clipboard]);
}

#[test]
fn crlf_line_endings_are_accepted() {
    let text = "name = \"m\"\r\nversion = \"1\"\r\nentry_file = \"m.wasm\"\r\npermissions = []\r\n";
    let m = parse_manifest(text).unwrap();
    assert_eq!(m.name, "m");
}

#[test]
fn unknown_keys_are_ignored() {
    let text = "name = \"m\"\nversion = \"1\"\nhomepage = \"https://example.com\"\n\
                tags = [\"a\", \"b\"]\nentry_file = \"m.wasm\"\npermissions = []\n";
    assert!(parse_manifest(text).is_ok());
}

#[test]
fn each_missing_required_field_is_named() {
    assert_eq!(
        parse_manifest("version = \"1\"\nentry_file = \"m\"\npermissions = []\n"),
        Err(ManifestError::MissingName)
    );
    assert_eq!(
        parse_manifest("name = \"m\"\nentry_file = \"m\"\npermissions = []\n"),
        Err(ManifestError::MissingVersion)
    );
    assert_eq!(
        parse_manifest("name = \"m\"\nversion = \"1\"\npermissions = []\n"),
        Err(ManifestError::MissingEntryFile)
    );
    assert_eq!(
        parse_manifest("name = \"m\"\nversion = \"1\"\nentry_file = \"m\"\n"),
        Err(ManifestError::MissingPermissions)
    );
}

#[test]
fn malformed_lines_are_syntax_errors() {
    assert_eq!(parse_manifest("name\n"), Err(ManifestError::Syntax));
    assert_eq!(parse_manifest("name = \n"), Err(ManifestError::Syntax));
    assert_eq!(parse_manifest("name = \"unterminated\n"), Err(ManifestError::Syntax));
    assert_eq!(parse_manifest("name = \"bad \\q escape\"\n"), Err(ManifestError::Syntax));
    assert_eq!(parse_manifest("= \"v\"\n"), Err(ManifestError::Syntax));
    assert_eq!(parse_manifest("permissions = [\"A\" \"B\"]\n"), Err(ManifestError::Syntax));
    assert_eq!(parse_manifest("name = \"m\" trailing\n"), Err(ManifestError::Syntax));
    assert_eq!(parse_manifest("permissions = [,]\n"), Err(ManifestError::Syntax));
}

#[test]
fn duplicate_and_mistyped_keys_are_rejected() {
    assert_eq!(
        parse_manifest("name = \"a\"\nname = \"b\"\n"),
        Err(ManifestError::DuplicateKey)
    );
    assert_eq!(
        parse_manifest("name = [\"a\"]\n"),
        Err(ManifestError::WrongType)
    );
    assert_eq!(
        parse_manifest("permissions = \"FileSystem\"\n"),
        Err(ManifestError::WrongType)
    );
}

#[test]
fn unknown_permission_and_extension_type_are_rejected() {
    assert_eq!(
        parse_manifest("permissions = [\"Root\"]\n"),
        Err(ManifestError::UnknownPermission)
    );
    assert_eq!(
        parse_manifest("extension_type = \"native\"\n"),
        Err(ManifestError::UnknownExtensionType)
    );
}

#[test]
fn the_first_failing_line_decides_the_error() {
    let text = "name = \"a\"\nbroken line\nname = \"b\"\n";
    assert_eq!(parse_manifest(text), Err(ManifestError::Syntax));
}

#[test]
fn empty_text_misses_its_name_first() {
    assert_eq!(parse_manifest(""), Err(ManifestError::MissingName));
}

//! Tests of configuration document parsing.

use oci_config::decode::{parse_config, parse_config_strict, DecodeError, Field};
use oci_config::schema::{Architecture, OS, RootFSType};

fn example_document() -> String {
    r#"
        {
            "created": "2015-10-31T22:22:56.015925234Z",
            "author": "Alyssa P. Hacker <alyspdev@example.com>",
            "architecture": "amd64",
            "os": "linux",
            "config": {
                "User": "alice",
                "ExposedPorts": {
                    "8080/tcp": {}
                },
                "Env": [
                    "PATH=/usr/local/sbin:/usr/local/bin:/usr/sbin:/usr/bin:/sbin:/bin",
                    "FOO=oci_is_a",
                    "BAR=well_written_spec"
                ],
                "Entrypoint": [
                    "/bin/my-app-binary"
                ],
                "Cmd": [
                    "--foreground",
                    "--config",
                    "/etc/my-app.d/default.cfg"
                ],
                "Volumes": {
                    "/var/job-result-data": {},
                    "/var/log/my-app-logs": {}
                },
                "WorkingDir": "/home/alice",
                "Labels": {
                    "com.example.project.git.url": "https://example.com/project.git",
                    "com.example.project.git.commit": "45a939b2999782a3f005621a8d0f29aa387e1d6b"
                }
            },
            "rootfs": {
              "diff_ids": [
                "sha256:c6f988f4874bb0add23a778f753c65efe992244e148a1d2ec2a8b664fb66bbd1",
                "sha256:5f70bf18a086007016e948b04aed3b82103a36bea41755b6cddfaf10ace3c6ef"
              ],
              "type": "layers"
            },
            "history": [
              {
                "created": "2015-10-31T22:22:54.690851953Z",
                "created_by": "/bin/sh -c #(nop) ADD file:a3bc1e842b69636f9df5256c49c5374fb4eef1e281fe3f282c65fb853ee171c5 in /"
              },
              {
                "created": "2015-10-31T22:22:55.613815829Z",
                "created_by": "/bin/sh -c #(nop) CMD [\"sh\"]",
                "empty_layer": true
              }
            ]
        }"#
        .to_owned()
}

#[test]
fn test_parse_config_ok() {
    let c = r#"
        {
            "created": "2015-10-31T22:22:56.015925234Z",
            "author": "Alyssa P. Hacker <alyspdev@example.com>",
            "architecture": "amd64",
            "os": "linux",
            "config": {
                "User": "alice",
                "ExposedPorts": {
                    "8080/tcp": {}
                },
                "Env": [
                    "PATH=/usr/local/sbin:/usr/local/bin:/usr/sbin:/usr/bin:/sbin:/bin",
                    "FOO=oci_is_a",
                    "BAR=well_written_spec"
                ],
                "Entrypoint": [
                    "/bin/my-app-binary"
                ],
                "Cmd": [
                    "--foreground",
                    "--config",
                    "/etc/my-app.d/default.cfg"
                ],
                "Volumes": {
                    "/var/job-result-data": {},
                    "/var/log/my-app-logs": {}
                },
                "WorkingDir": "/home/alice",
                "Labels": {
                    "com.example.project.git.url": "https://example.com/project.git",
                    "com.example.project.git.commit": "45a939b2999782a3f005621a8d0f29aa387e1d6b"
                }
            },
            "rootfs": {
              "diff_ids": [
                "sha256:c6f988f4874bb0add23a778f753c65efe992244e148a1d2ec2a8b664fb66bbd1",
                "sha256:5f70bf18a086007016e948b04aed3b82103a36bea41755b6cddfaf10ace3c6ef"
              ],
              "type": "layers"
            },
            "history": [
              {
                "created": "2015-10-31T22:22:54.690851953Z",
                "created_by": "/bin/sh -c #(nop) ADD file:a3bc1e842b69636f9df5256c49c5374fb4eef1e281fe3f282c65fb853ee171c5 in /"
              },
              {
                "created": "2015-10-31T22:22:55.613815829Z",
                "created_by": "/bin/sh -c #(nop) CMD [\"sh\"]",
                "empty_layer": true
              }
            ]
        }"#;
    let m = parse_config(c);

    if m.is_err() {
        println!("Error {:?}", m.err());
        assert!(false);
    } else {
        assert!(m.is_ok());
        println!("Result: {:?}", m.unwrap());
    }
}

#[test]
fn round_trip_fields_match_input() {
    let doc = example_document();
    let c = parse_config(&doc).unwrap();
    assert_eq!(c.created, "2015-10-31T22:22:56.015925234Z");
    assert_eq!(c.author, "Alyssa P. Hacker <alyspdev@example.com>");
    assert_eq!(c.architecture, Architecture::Amd64);
    assert_eq!(c.os, OS::Linux);
    assert_eq!(c.config.user, "alice");
    assert_eq!(c.config.exposed_ports.len(), 1);
    assert_eq!(c.config.exposed_ports[0].0, "8080/tcp");
    assert_eq!(
        c.config.env,
        vec![
            "PATH=/usr/local/sbin:/usr/local/bin:/usr/sbin:/usr/bin:/sbin:/bin".to_owned(),
            "FOO=oci_is_a".to_owned(),
            "BAR=well_written_spec".to_owned(),
        ]
    );
    assert_eq!(c.config.entrypoint, vec!["/bin/my-app-binary".to_owned()]);
    assert_eq!(
        c.config.cmd,
        vec![
            "--foreground".to_owned(),
            "--config".to_owned(),
            "/etc/my-app.d/default.cfg".to_owned(),
        ]
    );
    assert_eq!(c.config.volumes.len(), 2);
    assert_eq!(c.config.working_dir, "/home/alice");
    assert_eq!(c.config.labels.len(), 2);
    assert!(c.config.labels.contains(&(
        "com.example.project.git.url".to_owned(),
        "https://example.com/project.git".to_owned()
    )));
    assert!(c.config.labels.contains(&(
        "com.example.project.git.commit".to_owned(),
        "45a939b2999782a3f005621a8d0f29aa387e1d6b".to_owned()
    )));
    assert_eq!(c.rootfs.rootfs_type, RootFSType::Layers);
    assert_eq!(
        c.rootfs.diff_ids[0].as_text().as_str(),
        "sha256:c6f988f4874bb0add23a778f753c65efe992244e148a1d2ec2a8b664fb66bbd1"
    );
    assert_eq!(
        c.rootfs.diff_ids[1].as_text().as_str(),
        "sha256:5f70bf18a086007016e948b04aed3b82103a36bea41755b6cddfaf10ace3c6ef"
    );
    assert_eq!(
        c.history[0].created_by,
        "/bin/sh -c #(nop) ADD file:a3bc1e842b69636f9df5256c49c5374fb4eef1e281fe3f282c65fb853ee171c5 in /"
    );
}

#[test]
fn two_diff_ids_two_history_entries() {
    let doc = example_document();
    let c = parse_config(&doc).unwrap();
    assert_eq!(c.rootfs.diff_ids.len(), 2);
    assert_eq!(c.history.len(), 2);
    assert_eq!(c.history[0].empty_layer, false);
    assert_eq!(c.history[1].empty_layer, true);
}

#[test]
fn missing_architecture_is_schema_violation() {
    let doc = example_document().replace("\"architecture\": \"amd64\",", "");
    let r = parse_config(&doc);
    assert_eq!(r.unwrap_err(), DecodeError::Missing(Field::Architecture));
}

#[test]
fn unrecognized_architecture_is_invalid_enum() {
    let doc = example_document().replace("\"amd64\"", "\"arm\"");
    let r = parse_config(&doc);
    assert_eq!(r.unwrap_err(), DecodeError::InvalidEnum(Field::Architecture));
}

#[test]
fn unrecognized_os_is_invalid_enum() {
    let doc = example_document().replace("\"linux\"", "\"plan9\"");
    let r = parse_config(&doc);
    assert_eq!(r.unwrap_err(), DecodeError::InvalidEnum(Field::Os));
}

#[test]
fn rootfs_type_alias_spellings_agree() {
    let with_alias = example_document();
    let with_canonical = with_alias.replace("\"type\": \"layers\"", "\"rootfs_type\": \"layers\"");
    let a = parse_config(&with_alias).unwrap();
    let b = parse_config(&with_canonical).unwrap();
    assert_eq!(a.rootfs.rootfs_type, RootFSType::Layers);
    assert_eq!(b.rootfs.rootfs_type, RootFSType::Layers);
    assert_eq!(a, b);
}

#[test]
fn rootfs_type_other_than_layers_fails() {
    let doc = example_document().replace("\"type\": \"layers\"", "\"type\": \"overlay\"");
    let r = parse_config(&doc);
    assert_eq!(r.unwrap_err(), DecodeError::InvalidEnum(Field::RootfsType));
}

#[test]
fn rootfs_type_wrong_shape_fails() {
    let doc = example_document().replace("\"type\": \"layers\"", "\"type\": 7");
    let r = parse_config(&doc);
    assert_eq!(r.unwrap_err(), DecodeError::WrongType(Field::RootfsType));
}

#[test]
fn decoding_twice_yields_equal_values() {
    let doc = example_document();
    let a = parse_config(&doc).unwrap();
    let b = parse_config(&doc).unwrap();
    assert_eq!(a, b);
}

#[test]
fn malformed_input_is_syntax_error() {
    assert_eq!(parse_config("{ not json").unwrap_err(), DecodeError::Syntax);
    assert_eq!(parse_config("").unwrap_err(), DecodeError::Syntax);
}

#[test]
fn non_object_document_is_wrong_type() {
    assert_eq!(
        parse_config("[1, 2, 3]").unwrap_err(),
        DecodeError::WrongType(Field::Document)
    );
}

#[test]
fn wrong_shape_created_field_fails() {
    let doc = example_document().replace(
        "\"created\": \"2015-10-31T22:22:56.015925234Z\",",
        "\"created\": 5,",
    );
    let r = parse_config(&doc);
    assert_eq!(r.unwrap_err(), DecodeError::WrongType(Field::Created));
}

#[test]
fn missing_user_is_schema_violation() {
    let doc = example_document().replace("\"User\": \"alice\",", "");
    let r = parse_config(&doc);
    assert_eq!(r.unwrap_err(), DecodeError::Missing(Field::User));
}

#[test]
fn env_with_non_string_entry_fails() {
    let doc = example_document().replace("\"FOO=oci_is_a\",", "17,");
    let r = parse_config(&doc);
    assert_eq!(r.unwrap_err(), DecodeError::WrongType(Field::Env));
}

#[test]
fn label_with_non_string_value_fails() {
    let doc = example_document().replace(
        "\"https://example.com/project.git\"",
        "null",
    );
    let r = parse_config(&doc);
    assert_eq!(r.unwrap_err(), DecodeError::WrongType(Field::Labels));
}

#[test]
fn history_entry_missing_created_by_fails() {
    let doc = example_document().replace(
        "\"created_by\": \"/bin/sh -c #(nop) CMD [\\\"sh\\\"]\",",
        "",
    );
    let r = parse_config(&doc);
    assert_eq!(r.unwrap_err(), DecodeError::Missing(Field::CreatedBy));
}

#[test]
fn history_entry_with_non_boolean_empty_layer_fails() {
    let doc = example_document().replace("\"empty_layer\": true", "\"empty_layer\": \"yes\"");
    let r = parse_config(&doc);
    assert_eq!(r.unwrap_err(), DecodeError::WrongType(Field::EmptyLayer));
}

#[test]
fn strict_parse_accepts_well_shaped_digests() {
    let doc = example_document();
    let c = parse_config_strict(&doc).unwrap();
    assert_eq!(c.rootfs.diff_ids.len(), 2);
}

#[test]
fn strict_parse_rejects_malformed_digest() {
    let doc = example_document().replace(
        "sha256:5f70bf18a086007016e948b04aed3b82103a36bea41755b6cddfaf10ace3c6ef",
        "sha256:NOT-HEX",
    );
    assert_eq!(
        parse_config_strict(&doc).unwrap_err(),
        DecodeError::InvalidDigest(Field::DiffIds)
    );
    assert!(parse_config(&doc).is_ok());
}

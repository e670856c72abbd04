//! Roles that the owner gives to sources.
use accessible_obs::roles::{RoleOrigin, SourceRoles};

#[test]
fn assignment_wins_over_obs_role() {
    let roles = SourceRoles {
        microphone: Some("Focusrite USB".into()),
        camera: None,
    };
    assert_eq!(
        roles.microphone_name(Some("Микр/доп")),
        Some("Focusrite USB")
    );
    assert_eq!(
        roles.microphone_origin(Some("Микр/доп")),
        RoleOrigin::Assigned
    );
}

#[test]
fn obs_role_is_used_when_nothing_assigned() {
    let roles = SourceRoles::default();
    assert_eq!(roles.microphone_name(Some("Микр/доп")), Some("Микр/доп"));
    assert_eq!(
        roles.microphone_origin(Some("Микр/доп")),
        RoleOrigin::ObsSpecial
    );
}

#[test]
fn nothing_assigned_and_no_obs_role_means_missing() {
    let roles = SourceRoles::default();
    assert_eq!(roles.microphone_name(None), None);
    assert_eq!(roles.microphone_origin(None), RoleOrigin::Missing);
}

#[test]
fn blank_assignment_is_treated_as_absent() {
    let roles = SourceRoles {
        microphone: Some("   ".into()),
        camera: Some("".into()),
    }
    .normalized();
    assert_eq!(roles.microphone, None);
    assert_eq!(roles.camera, None);
    assert_eq!(roles.microphone_name(Some("Микр/доп")), Some("Микр/доп"));
}

#[test]
fn assignment_survives_a_restart() {
    let roles = SourceRoles {
        microphone: Some("Focusrite USB".into()),
        camera: Some("Sony".into()),
    };
    assert_eq!(SourceRoles::from_json(&roles.to_json()), roles);
}

#[test]
fn broken_file_does_not_break_startup() {
    assert_eq!(SourceRoles::from_json("не json"), SourceRoles::default());
    assert_eq!(SourceRoles::from_json(""), SourceRoles::default());
}

#[test]
fn partial_file_keeps_the_rest_empty() {
    let roles = SourceRoles::from_json(r#"{"microphone":"Петличка"}"#);
    assert_eq!(roles.microphone.as_deref(), Some("Петличка"));
    assert_eq!(roles.camera, None);
}

#[test]
fn a_role_of_the_wrong_type_spoils_the_file() {
    assert_eq!(
        SourceRoles::from_json(r#"{"microphone":"Петличка","camera":5}"#),
        SourceRoles::default()
    );
}

#[test]
fn names_are_trimmed_and_the_file_is_readable() {
    let roles = SourceRoles {
        microphone: Some("  Петличка ".into()),
        camera: None,
    }
    .normalized();
    assert_eq!(roles.microphone.as_deref(), Some("Петличка"));
    assert_eq!(
        roles.to_json(),
        "{\n  \"microphone\": \"Петличка\",\n  \"camera\": null\n}"
    );
    let again = SourceRoles::from_json(&roles.to_json());
    assert_eq!(again, roles);
}

#[test]
fn a_record_is_read_field_by_field() {
    let mic = |raw: &str| SourceRoles::from_json(raw).microphone;
    let deep = format!("{}{}", "[".repeat(500), "]".repeat(500));
    // What nobody asks for may hold anything that has the form of JSON, and may come twice.
    assert_eq!(mic(&format!(r#"{{"x":{deep},"microphone":"a"}}"#)).as_deref(), Some("a"));
    assert_eq!(mic(r#" {"x" : 1e999 ,"x":"\ud800","\u006dicrophone":"a" } "#).as_deref(), Some("a"));
    assert_eq!(mic(r#"{"$serde_json::private::RawValue":"[]","microphone":"a"}"#).as_deref(), Some("a"));
    // What is asked for must be there once, and be a text or null.
    assert_eq!(mic(r#"{"microphone":"a","microphone":"b"}"#), None);
    assert_eq!(SourceRoles::from_json(r#"{"microphone":"a","camera":"b","camera":"b"}"#), SourceRoles::default());
    assert_eq!(mic(r#"{"microphone":{"$serde_json::private::RawValue":"\"a\""}}"#), None);
    assert_eq!(mic(r#"{"microphone":"\ud800","camera":"b"}"#), None);
    assert_eq!(mic(r#"{"microphone":"a"} x"#), None);
    assert_eq!(mic(r#"{"microphone":"a",}"#), None);
    assert_eq!(mic(r#"{"microphone":"a" "camera":"b"}"#), None);
    assert_eq!(mic(r#"{"microphone" "a"}"#), None);
    assert_eq!(mic(r#"{1:"a","microphone":"a"}"#), None);
    assert_eq!(mic(r#"{"x":01,"microphone":"a"}"#), None);
    assert_eq!(mic(r#"{"x":nul,"microphone":"a"}"#), None);
    assert_eq!(mic(r#"["a"]"#).as_deref(), Some("a"));
    assert_eq!(mic(r#"[ "a" , null ]"#).as_deref(), Some("a"));
    assert_eq!(mic(r#"["a",null,1]"#), None);
    assert_eq!(mic(r#"["a",]"#), None);
    assert_eq!(mic("[]"), None);
    assert_eq!(mic("{}"), None);
    assert_eq!(mic("{} 1"), None);
}

use jacquewm::plugins::{JacquePlugin, Permission, PluginManifest, PluginProfile};

#[test]
fn manifest_validates_id_format() {
    let m = PluginManifest {
        id: "acme/jacqlint".into(),
        name: "Jacqlint".into(),
        author: "acme".into(),
        version: "0.1.0".into(),
        profile: PluginProfile::Launcher,
        permissions: vec![Permission::ReadWorkspaces],
        jacquewm_version: "^0.1.0".into(),
    };
    m.validate().unwrap();
}

#[test]
fn manifest_rejects_bad_id() {
    let m = PluginManifest {
        id: "no-slash".into(),
        name: "Bad".into(),
        author: "x".into(),
        version: "0.1.0".into(),
        profile: PluginProfile::Theme,
        permissions: vec![],
        jacquewm_version: String::new(),
    };
    assert!(m.validate().is_err());
}

#[test]
fn manifest_rejects_unversioned() {
    let m = PluginManifest {
        id: "a/b".into(),
        name: "Bad".into(),
        author: "x".into(),
        version: "1".into(),
        profile: PluginProfile::Theme,
        permissions: vec![],
        jacquewm_version: String::new(),
    };
    assert!(m.validate().is_err());
}

#[test]
fn manifest_error_messages() {
    let mut m = PluginManifest {
        id: String::new(),
        name: "N".into(),
        author: String::new(),
        version: "1.2.3".into(),
        profile: PluginProfile::default(),
        permissions: vec![],
        jacquewm_version: String::new(),
    };
    assert_eq!(m.validate(), Err("id must be `<author>/<name>`".to_string()));
    m.id = "a/b".into();
    m.version = "1.2".into();
    assert_eq!(m.validate(), Err("version must be MAJOR.MINOR.PATCH".to_string()));
    m.version = "..".into();
    assert_eq!(m.validate(), Ok(()));
    assert_eq!(PluginProfile::default(), PluginProfile::Theme);
    assert_eq!(Permission::ObserveWindowEvent.as_str(), "observe:window_events");
}

struct CountingPlugin;

impl JacquePlugin for CountingPlugin {
    fn id(&self) -> &str {
        "test/counter"
    }
    fn on_load(&self) {}
    fn on_unload(&self) {}
}

#[test]
fn trait_can_be_implemented() {
    let p: Box<dyn JacquePlugin> = Box::new(CountingPlugin);
    p.on_workspace_change(1, 2);
    assert_eq!(p.id(), "test/counter");
}

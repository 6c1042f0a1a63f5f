use std::cell::RefCell;

use serde_json::{Number, Value};

use screen_tune::common::DisplayParams;
use screen_tune::config::Profile;
use screen_tune::profile::{builtin, builtin_profiles, validate_profile_id, ProfileError, ProfileManager, ProfileStore};

/// Profiles kept in memory; JSON as the configuration files hold it.
#[derive(Default)]
struct MemoryStore {
    files: RefCell<Vec<Profile>>,
    fail_saves: bool,
}

fn number(bits: u32) -> Value {
    Value::Number(Number::from_f64(f32::from_bits(bits) as f64).unwrap())
}

fn bits(v: &Value) -> Result<u32, String> {
    v.as_f64().map(|f| (f as f32).to_bits()).ok_or_else(|| "not a number".to_string())
}

fn text(v: &Value, key: &str) -> Result<String, String> {
    v.get(key).and_then(|x| x.as_str()).map(|s| s.to_string()).ok_or_else(|| format!("missing {key}"))
}

impl ProfileStore for MemoryStore {
    fn list_profiles(&self) -> Vec<Profile> {
        self.files.borrow().clone()
    }

    fn save_profile(&self, profile: &Profile) -> Result<(), String> {
        if self.fail_saves {
            return Err("disk full".to_string());
        }
        let mut files = self.files.borrow_mut();
        files.retain(|p| p.id != profile.id);
        files.push(profile.clone());
        Ok(())
    }

    fn delete_profile(&self, id: &str) -> Result<(), String> {
        self.files.borrow_mut().retain(|p| p.id != id);
        Ok(())
    }

    fn parse_profile_json(&self, json: &str) -> Result<Profile, String> {
        let v: Value = serde_json::from_str(json).map_err(|e| e.to_string())?;
        let params = v.get("params").ok_or("missing params")?;
        Ok(Profile {
            id: text(&v, "id")?,
            name: text(&v, "name")?,
            description: text(&v, "description").unwrap_or_default(),
            params: DisplayParams {
                gamma_bits: bits(&params["gamma"])?,
                brightness_bits: bits(&params["brightness"])?,
                contrast_bits: bits(&params["contrast"])?,
                saturation_bits: bits(&params["saturation"])?,
                temperature_k: params["temperature_k"].as_u64().ok_or("bad temperature")? as u32,
            },
            hotkey: v.get("hotkey").and_then(|h| h.as_str()).map(|s| s.to_string()),
            builtin: v.get("builtin").and_then(|b| b.as_bool()).unwrap_or(false),
        })
    }

    fn export_profile_json(&self, profile: &Profile) -> Result<String, String> {
        let mut params = serde_json::Map::new();
        params.insert("gamma".into(), number(profile.params.gamma_bits));
        params.insert("brightness".into(), number(profile.params.brightness_bits));
        params.insert("contrast".into(), number(profile.params.contrast_bits));
        params.insert("saturation".into(), number(profile.params.saturation_bits));
        params.insert("temperature_k".into(), Value::from(profile.params.temperature_k));
        let mut m = serde_json::Map::new();
        m.insert("id".into(), Value::from(profile.id.clone()));
        m.insert("name".into(), Value::from(profile.name.clone()));
        m.insert("description".into(), Value::from(profile.description.clone()));
        m.insert("params".into(), Value::Object(params));
        m.insert(
            "hotkey".into(),
            profile.hotkey.clone().map(Value::from).unwrap_or(Value::Null),
        );
        m.insert("builtin".into(), Value::from(profile.builtin));
        serde_json::to_string_pretty(&Value::Object(m)).map_err(|e| e.to_string())
    }
}

fn temp_manager() -> ProfileManager<MemoryStore> {
    ProfileManager::init(MemoryStore::default()).unwrap()
}

fn is_default(p: &DisplayParams) -> bool {
    let eps = 1e-3f32;
    (f32::from_bits(p.gamma_bits) - 100.0).abs() < eps
        && (f32::from_bits(p.brightness_bits) - 100.0).abs() < eps
        && (f32::from_bits(p.contrast_bits) - 100.0).abs() < eps
        && (f32::from_bits(p.saturation_bits) - 100.0).abs() < eps
        && p.temperature_k == 6500
}

#[test]
fn builtin_profiles_are_complete() {
    let profiles = builtin_profiles();
    let ids: Vec<_> = profiles.iter().map(|p| p.id.as_str()).collect();
    assert_eq!(
        ids,
        vec![
            builtin::DEFAULT,
            builtin::RUST,
            builtin::CS2,
            builtin::PUBG,
            builtin::OFFICE,
            builtin::NIGHT
        ]
    );
    let def = profiles.iter().find(|p| p.id == builtin::DEFAULT).unwrap();
    assert!(is_default(&def.params));
    let rust = profiles.iter().find(|p| p.id == builtin::RUST).unwrap();
    assert!(!is_default(&rust.params));
}

#[test]
fn profile_crud() {
    let mut m = temp_manager();
    let p = Profile::new("my-profile", "我的方案", DisplayParams::default());
    m.create(p.clone()).unwrap();
    assert!(m.id_exists("my-profile"));
    assert!(m.create(p.clone()).is_err());

    let mut updated = p;
    updated.params.gamma_bits = 120.0f32.to_bits();
    m.update(updated.clone()).unwrap();
    assert_eq!(f32::from_bits(m.get("my-profile").unwrap().params.gamma_bits), 120.0);

    m.delete("my-profile").unwrap();
    assert!(!m.id_exists("my-profile"));
    assert!(m.delete(builtin::RUST).is_err());
}

#[test]
fn import_handles_conflict() {
    let mut m = temp_manager();
    let json = m.export_json(builtin::RUST).unwrap();
    let imported = m.import_json(&json).unwrap();
    assert!(imported.id.starts_with("rust"));
    assert_ne!(imported.id, builtin::RUST);
    assert!(m.id_exists(&imported.id));
    assert!(m.import_json("{not json}").is_err());
}

#[test]
fn imported_copy_of_builtin_is_a_user_profile() {
    let mut m = temp_manager();
    let json = m.export_json(builtin::RUST).unwrap();
    let imported = m.import_json(&json).unwrap();
    assert!(!imported.builtin);
    assert!(!m.get(&imported.id).unwrap().builtin);
    assert_eq!(m.delete(&imported.id), Ok(()));
}

#[test]
fn list_is_sorted_by_name() {
    let m = temp_manager();
    let names: Vec<String> = m.list().iter().map(|p| p.name.clone()).collect();
    let mut sorted = names.clone();
    sorted.sort();
    assert_eq!(names, sorted);
    assert_eq!(names.len(), 6);
    assert_eq!(names[0], "CS2");
}

#[test]
fn stored_profile_overrides_builtin() {
    let store = MemoryStore::default();
    let mut mine = Profile::new("rust", "Rust (mine)", DisplayParams::default());
    mine.builtin = false;
    store.save_profile(&mine).unwrap();
    let m = ProfileManager::init(store).unwrap();
    assert_eq!(m.list().len(), 6);
    assert_eq!(m.get("rust").unwrap().name, "Rust (mine)");
}

#[test]
fn builtin_update_keeps_flag_and_sorts() {
    let mut m = temp_manager();
    let mut p = m.get("rust").unwrap().clone();
    p.name = "A-Rust".into();
    p.builtin = false;
    m.update(p).unwrap();
    let rust = m.get("rust").unwrap();
    assert!(rust.builtin);
    assert_eq!(rust.name, "A-Rust");
    assert_eq!(m.list()[0].id, "rust");
    let names: Vec<String> = m.list().iter().map(|p| p.name.clone()).collect();
    let mut sorted = names.clone();
    sorted.sort();
    assert_eq!(names, sorted);
}

#[test]
fn errors_of_each_kind() {
    let mut m = temp_manager();
    assert_eq!(m.create(Profile::new("rust", "x", DisplayParams::default())), Err(ProfileError::IdExists("rust".into())));
    let mut b = Profile::new("fresh", "x", DisplayParams::default());
    b.builtin = true;
    assert_eq!(m.create(b), Err(ProfileError::BuiltinCreate));
    assert_eq!(m.delete("nope"), Err(ProfileError::NotFound("nope".into())));
    assert_eq!(m.delete("office"), Err(ProfileError::BuiltinDelete));
    assert_eq!(m.export_json("nope"), Err(ProfileError::NotFound("nope".into())));
    let bad = Profile::new("a/b", "x", DisplayParams::default());
    assert_eq!(m.import_profile(bad), Err(ProfileError::InvalidId("a/b".into())));
    assert!(matches!(m.import_json("{not json}"), Err(ProfileError::InvalidJson(_))));
    let n = m.list().len();
    assert_eq!(
        m.create(Profile::new("../config", "x", DisplayParams::default())),
        Err(ProfileError::InvalidId("../config".into()))
    );
    assert_eq!(
        m.update(Profile::new("", "x", DisplayParams::default())),
        Err(ProfileError::InvalidId("".into()))
    );
    assert_eq!(m.list().len(), n);

    let mut failing = ProfileManager::init(MemoryStore { files: RefCell::new(Vec::new()), fail_saves: true }).unwrap();
    let n = failing.list().len();
    assert_eq!(
        failing.create(Profile::new("z", "z", DisplayParams::default())),
        Err(ProfileError::Store("disk full".into()))
    );
    assert_eq!(failing.list().len(), n);
}

#[test]
fn repeated_imports_count_up() {
    let mut m = temp_manager();
    let json = m.export_json("cs2").unwrap();
    assert_eq!(m.import_json(&json).unwrap().id, "cs2-2");
    assert_eq!(m.import_json(&json).unwrap().id, "cs2-3");
    assert_eq!(m.list().len(), 8);
}

#[test]
fn profile_ids_are_validated() {
    assert!(validate_profile_id("my-profile"));
    assert!(!validate_profile_id(""));
    for bad in ["a/b", "a\\b", "c:", "x*", "q?", "\"", "<", ">", "|"] {
        assert!(!validate_profile_id(bad), "{bad}");
    }
}

#[test]
fn export_hands_over_the_profile_asked_for() {
    let mut m = temp_manager();
    for id in ["office", "cs2", "rust"] {
        let json = m.export_json(id).unwrap();
        let v: Value = serde_json::from_str(&json).unwrap();
        assert_eq!(v["id"], Value::from(id));
    }
}

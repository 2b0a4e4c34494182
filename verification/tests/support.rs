use rain::config::Config;
use rain::render_gl::Error;
use rain::rng::Rng;

#[test]
fn rng_is_deterministic_per_seed() {
    let mut a = Rng::new(1234);
    let mut b = Rng::new(1234);
    for _ in 0..20 {
        assert_eq!(a.next_u64(), b.next_u64());
    }
    let mut c = Rng::new(4321);
    assert_ne!(a.next_u64(), c.next_u64());
}

#[test]
fn rng_draws_stay_below_the_bound() {
    let mut r = Rng::new(77);
    for _ in 0..100 {
        assert!(r.below(10) < 10);
        assert!(r.fraction() < 1_000_000);
    }
}

#[test]
fn rng_zero_seed_is_replaced() {
    let mut z = Rng::new(0);
    // the all-zero xorshift state would never leave zero
    assert_ne!(z.next_u64(), 0);
}

#[test]
fn rng_from_entropy_draws() {
    let mut r = Rng::from_entropy();
    for _ in 0..10 {
        assert!(r.below(7) < 7);
    }
}

#[test]
fn config_remembers_its_path() {
    let config = Config::new(String::from("rain.ini"));
    assert_eq!(config.path().as_str(), "rain.ini");
}

#[test]
fn cached_background_joins_the_file_name() {
    let config = Config::new(String::from("rain.ini"));
    let r = config.cached_background(
        Some("C:\\pictures\\scenery\\ocean.jpg"),
        "C:\\app\\assets\\textures",
    );
    assert_eq!(r.as_deref(), Some("C:\\app\\assets\\textures\\ocean.jpg"));
}

#[test]
fn cached_background_handles_forward_slashes() {
    let config = Config::new(String::from("rain.ini"));
    let r = config.cached_background(Some("pictures/ocean.png"), "assets\\textures");
    assert_eq!(r.as_deref(), Some("assets\\textures\\ocean.png"));
}

#[test]
fn cached_background_without_separator_keeps_the_name() {
    let config = Config::new(String::from("rain.ini"));
    let r = config.cached_background(Some("ocean.png"), "assets\\textures");
    assert_eq!(r.as_deref(), Some("assets\\textures\\ocean.png"));
}

#[test]
fn cached_background_none_passes_through() {
    let config = Config::new(String::from("rain.ini"));
    assert_eq!(config.cached_background(None, "assets\\textures"), None);
}

#[test]
fn error_messages_name_the_shader() {
    let e = Error::CompileError { name: String::from("drop"), message: String::from("bad token") };
    assert_eq!(e.describe(), "Failed to compile shader drop: bad token");
    let e = Error::LinkError { name: String::from("final"), message: String::from("no main") };
    assert_eq!(e.describe(), "Failed to link program final: no main");
}

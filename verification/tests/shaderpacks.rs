use linked_hash_map::LinkedHashMap;
use wgpu_mc_jni::shaderpack::{
    PipelineConfig, PipelinesConfig, ResourcesConfig, ShaderPackConfig, ShorthandResourceConfig,
    Uniform, UniformVisibility, CONFIG_VERSION, CONFIG_VERSION_TRIPLE,
};

fn pack(version: &str) -> ShaderPackConfig {
    ShaderPackConfig {
        version: version.to_string(),
        support: "glsl".to_string(),
        resources: ResourcesConfig { resources: LinkedHashMap::new() },
        pipelines: PipelinesConfig { pipelines: LinkedHashMap::new() },
    }
}

fn fits(version: &str) -> bool {
    pack(version).is_correct_version()
}

#[test]
fn the_own_version_is_correct() {
    assert_eq!(CONFIG_VERSION, "v0.0.1");
    assert_eq!(CONFIG_VERSION_TRIPLE, (0, 0, 1));
    assert!(fits(CONFIG_VERSION));
}

#[test]
fn the_patch_does_not_matter() {
    assert!(fits("v0.0.0"));
    assert!(fits("v0.0.2"));
    assert!(fits("v0.0.12345"));
    assert!(fits("v0.0.4294967294"));
    assert!(fits("v0.0.4294967295"));
}

#[test]
fn major_and_minor_do_matter() {
    assert!(!fits("v1.0.1"));
    assert!(!fits("v0.1.1"));
    assert!(!fits("v10.0.1"));
    assert!(!fits("v0.10.1"));
    assert!(!fits("v4294967295.0.1"));
    assert!(!fits("v0.4294967295.1"));
}

#[test]
fn a_wrong_format_is_no_version() {
    assert!(!fits(""));
    assert!(!fits("v"));
    assert!(!fits("0.0.1"));
    assert!(!fits("V0.0.1"));
    assert!(!fits("v0.0"));
    assert!(!fits("v0.0.1.0"));
    assert!(!fits("v0.0."));
    assert!(!fits("v.0.1"));
    assert!(!fits("v0..1"));
    assert!(!fits("vv0.0.1"));
    assert!(!fits("v0.0.1 "));
    assert!(!fits("v0.0.x"));
    assert!(!fits("v0.0.-1"));
    assert!(!fits("v0.0.4294967296"));
    assert!(!fits("v0.0.99999999999999999999999"));
    assert!(!fits("v0.0.\u{662}"));
}

#[test]
fn numbers_are_digits_without_zeroes_in_front() {
    for part in ["0", "7", "10", "907", "4294967295"] {
        assert!(fits(&format!("v0.0.{}", part)), "{}", part);
    }
    for part in ["", "+0", "+", "-0", "00", "007", "0x0", " 0", "1_0", "4294967296"] {
        assert!(!fits(&format!("v0.0.{}", part)), "{}", part);
    }
    assert!(!fits("v+0.+0.+1"));
    assert!(!fits("v+0.0.1"));
    assert!(!fits("v0.+0.1"));
    assert!(!fits("v00.0.1"));
    assert!(!fits("v0.00.1"));
    assert!(!fits("v00.00.11"));
}

#[test]
fn resources_keep_their_order() {
    let mut config = pack("v0.0.1");
    config.resources.resources.insert("b".to_string(), ShorthandResourceConfig::Int(3));
    config
        .resources
        .resources
        .insert("a".to_string(), ShorthandResourceConfig::Float(1.5f64.to_bits()));
    let mut uniforms = LinkedHashMap::new();
    uniforms.insert(
        4,
        Uniform {
            resource: "a".to_string(),
            visibility: vec![UniformVisibility::Vert, UniformVisibility::Frag],
        },
    );
    config.pipelines.pipelines.insert(
        "terrain".to_string(),
        PipelineConfig {
            geometry: "wm_geo_terrain".to_string(),
            output: vec![],
            depth: String::new(),
            uniforms,
        },
    );
    let names: Vec<&String> = config.resources.resources.keys().collect();
    assert_eq!(names, vec!["b", "a"]);
    let uniform = &config.pipelines.pipelines["terrain"].uniforms[&4];
    assert_eq!(uniform.visibility[1], UniformVisibility::Frag);
}

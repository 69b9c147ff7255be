use lorenz_sim::config::{cube_root, Config, ConfigComputeShader, ConfigDrawShader};
use lorenz_sim::fixed::SCALE;
use lorenz_sim::instance::{
    color_from_hex, ColorParseError, InstancesVec, Rgb, INSTANCE_COLOR_OFFSET,
    INSTANCE_POSITION_OFFSET, INSTANCE_STRIDE,
};
use lorenz_sim::lorenz::LorenzState;
use lorenz_sim::vec3::FxVec3;
use lorenz_sim::vertex::{square_vertices, SQUARE_VERTEX_COUNT, VERTEX_STRIDE};

#[test]
fn hex_colors_parse_exactly() {
    assert_eq!(color_from_hex("00ff00"), Ok(Rgb { r: 0, g: 255, b: 0 }));
    assert_eq!(color_from_hex("dbafea"), Ok(Rgb { r: 0xdb, g: 0xaf, b: 0xea }));
    assert_eq!(color_from_hex("DBAFEA"), Ok(Rgb { r: 0xdb, g: 0xaf, b: 0xea }));
    assert_eq!(color_from_hex("123456trailing"), Ok(Rgb { r: 0x12, g: 0x34, b: 0x56 }));
}

#[test]
fn hex_color_errors_name_the_reason() {
    assert_eq!(color_from_hex(""), Err(ColorParseError::TooShort));
    assert_eq!(color_from_hex("00ff0"), Err(ColorParseError::TooShort));
    assert_eq!(color_from_hex("00gg00"), Err(ColorParseError::InvalidDigit));
    assert_eq!(color_from_hex("-12345"), Err(ColorParseError::InvalidDigit));
}

#[test]
fn instances_mirror_the_point_buffer() {
    let state = LorenzState {
        points: vec![
            FxVec3 { x: 1, y: 2, z: 3 },
            FxVec3 { x: -4, y: 5, z: -6 },
        ],
    };
    let v = InstancesVec::from_state(&state);
    assert_eq!(v.data.len(), 2);
    assert_eq!(v.data[0].position, state.points[0]);
    assert_eq!(v.data[1].position, state.points[1]);
}

#[test]
fn update_paints_the_default_color() {
    let state = LorenzState { points: vec![FxVec3 { x: 7, y: 8, z: 9 }] };
    let mut v = InstancesVec::from_state(&state);
    let state2 = LorenzState { points: vec![FxVec3 { x: 10, y: 11, z: 12 }] };
    v.update(&state2);
    assert_eq!(v.data.len(), 1);
    assert_eq!(v.data[0].position, FxVec3 { x: 10, y: 11, z: 12 });
    assert_eq!(v.data[0].color, Rgb { r: 0, g: 255, b: 0 });
}

#[test]
fn gpu_record_layout_is_fixed() {
    assert_eq!(INSTANCE_STRIDE, 32);
    assert_eq!(INSTANCE_POSITION_OFFSET, 0);
    assert_eq!(INSTANCE_COLOR_OFFSET, 16);
    assert_eq!(VERTEX_STRIDE, 24);
}

#[test]
fn quad_is_the_unit_square_strip() {
    let v = square_vertices();
    assert_eq!(v.len(), SQUARE_VERTEX_COUNT as usize);
    assert_eq!(v[0], FxVec3 { x: 0, y: 0, z: 0 });
    assert_eq!(v[1], FxVec3 { x: SCALE, y: 0, z: 0 });
    assert_eq!(v[2], FxVec3 { x: 0, y: SCALE, z: 0 });
    assert_eq!(v[3], FxVec3 { x: SCALE, y: SCALE, z: 0 });
}

#[test]
fn shader_config_blocks_mirror_the_config() {
    let cfg = Config::default();
    let cs = ConfigComputeShader::from_config(&cfg);
    assert_eq!(cs.lorenz, cfg.lorenz);
    assert_eq!(cs.num_workgroups, cfg.num_workgroups);
    let ds = ConfigDrawShader::from_config(&cfg);
    assert_eq!(ds.smooth_shading, 0);
    let mut smooth = cfg;
    smooth.smooth_shading = true;
    assert_eq!(ConfigDrawShader::from_config(&smooth).smooth_shading, 1);
}

#[test]
fn cube_root_brackets() {
    assert_eq!(cube_root(0), 0);
    assert_eq!(cube_root(7), 1);
    assert_eq!(cube_root(8), 2);
    assert_eq!(cube_root(1_000_000), 100);
    assert_eq!(cube_root(999_999), 99);
}

use gen4ids::plan::{
    plan_buffers, plan_dispatch, plan_session, BufferCopy, BufferPlan, BufferRole, BufferUsage,
    Command, ComputePass, GridSize, SessionRequest, BIND_GROUP, DOMAIN_X, DOMAIN_Y, DOMAIN_Z,
    GROUP_X, GROUP_Y, GROUP_Z, INPUT_BINDING, OUTPUT_BINDING,
};

#[test]
fn session_asks_for_no_features_and_conservative_limits() {
    assert_eq!(
        plan_session(),
        SessionRequest { optional_features: false, conservative_limits: true }
    );
}

#[test]
fn staging_buffer_is_read_by_the_host() {
    let staging = plan_buffers(5).staging;
    assert_eq!(staging.words, 10);
    assert_eq!(staging.size(), 40);
    assert_eq!(staging.fill, None);
    assert_eq!(
        staging.usage,
        BufferUsage { map_read: true, copy_src: false, copy_dst: true, storage: false }
    );
    assert_eq!(staging.initial_words(), None);
    assert_eq!(staging.contents(), None);
}

#[test]
fn input_buffer_holds_the_key() {
    let input = plan_buffers(0xabcd_1234).input;
    assert_eq!(input.words, 1);
    assert_eq!(input.size(), 4);
    assert_eq!(input.fill, Some(0xabcd_1234));
    assert_eq!(
        input.usage,
        BufferUsage { map_read: false, copy_src: false, copy_dst: true, storage: true }
    );
    assert_eq!(input.initial_words(), Some(vec![0xabcd_1234]));
    assert_eq!(input.contents(), Some(0xabcd_1234u32.to_ne_bytes().to_vec()));
}

#[test]
fn output_buffer_starts_all_zero() {
    let output = plan_buffers(77).output;
    assert_eq!(output.words, 10);
    assert_eq!(output.size(), 40);
    assert_eq!(output.fill, Some(0));
    assert_eq!(
        output.usage,
        BufferUsage { map_read: false, copy_src: true, copy_dst: true, storage: true }
    );
    assert_eq!(output.initial_words(), Some(vec![0; 10]));
    assert_eq!(output.contents(), Some(vec![0u8; 40]));
}

#[test]
fn only_the_input_buffer_depends_on_the_key() {
    let one = plan_buffers(1);
    let other = plan_buffers(2);
    assert_eq!(one.staging, other.staging);
    assert_eq!(one.output, other.output);
    assert_ne!(one.input, other.input);
    assert_eq!(plan_buffers(1), one);
}

#[test]
fn contents_are_as_long_as_the_buffer() {
    let plan = BufferPlan {
        words: 3,
        fill: Some(0x0102_0304),
        usage: BufferUsage { map_read: false, copy_src: false, copy_dst: true, storage: true },
    };
    assert_eq!(plan.size(), 12);
    assert_eq!(plan.initial_words(), Some(vec![0x0102_0304; 3]));
    let bytes = plan.contents().unwrap();
    assert_eq!(bytes.len(), 12);
    let word = 0x0102_0304u32.to_ne_bytes();
    assert_eq!(bytes, [word, word, word].concat());
}

#[test]
fn empty_buffer_has_empty_contents() {
    let plan = BufferPlan {
        words: 0,
        fill: Some(9),
        usage: BufferUsage { map_read: false, copy_src: false, copy_dst: false, storage: true },
    };
    assert_eq!(plan.size(), 0);
    assert_eq!(plan.contents(), Some(vec![]));
}

#[test]
fn largest_buffer_size_fits() {
    let plan = BufferPlan {
        words: u32::MAX,
        fill: None,
        usage: BufferUsage { map_read: false, copy_src: false, copy_dst: false, storage: true },
    };
    assert_eq!(plan.size(), 4 * (u32::MAX as u64));
}

#[test]
fn dispatch_binds_input_then_output() {
    let pass = plan_dispatch().pass;
    assert_eq!(pass.bind_group, 0);
    assert_eq!(pass.input_binding, 0);
    assert_eq!(pass.output_binding, 1);
    assert_eq!(BIND_GROUP, 0);
    assert_eq!(INPUT_BINDING, 0);
    assert_eq!(OUTPUT_BINDING, 1);
}

#[test]
fn dispatch_grid_is_fixed() {
    assert_eq!(plan_dispatch().pass.grid, GridSize { x: 256, y: 256, z: 256 });
    assert_eq!(plan_dispatch(), plan_dispatch());
}

#[test]
fn dispatch_grid_covers_the_domain() {
    let grid = plan_dispatch().pass.grid;
    assert_eq!(grid.x * GROUP_X, DOMAIN_X);
    assert_eq!(grid.y * GROUP_Y, DOMAIN_Y);
    assert_eq!(grid.z * GROUP_Z, DOMAIN_Z);
    let workgroups = grid.x as u64 * grid.y as u64 * grid.z as u64;
    let each = GROUP_X as u64 * GROUP_Y as u64 * GROUP_Z as u64;
    assert_eq!(workgroups * each, 1u64 << 32);
    assert_eq!(DOMAIN_X as u64 * DOMAIN_Y as u64 * DOMAIN_Z as u64, 1u64 << 32);
}

#[test]
fn copy_moves_the_whole_output_to_staging() {
    let layout = plan_buffers(0);
    let copy = plan_dispatch().copy;
    assert_eq!(
        copy,
        BufferCopy {
            source: BufferRole::Output,
            source_offset: 0,
            destination: BufferRole::Staging,
            destination_offset: 0,
            bytes: 40,
        }
    );
    assert_eq!(copy.bytes, layout.output.size());
    assert_eq!(copy.bytes, layout.staging.size());
    assert!(layout.output.usage.copy_src);
    assert!(layout.staging.usage.copy_dst);
}

#[test]
fn commands_are_one_pass_then_the_copy() {
    let plan = plan_dispatch();
    assert_eq!(
        plan.commands(),
        vec![
            Command::Compute(ComputePass {
                bind_group: 0,
                input_binding: 0,
                output_binding: 1,
                grid: GridSize { x: 256, y: 256, z: 256 },
            }),
            Command::Copy(plan.copy),
        ]
    );
}

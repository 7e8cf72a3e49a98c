use chunk_terrain::perlin::{
    DispatchCommand, NodeState, NoiseGenerationRequest, PerlinNoiseNode, WORKGROUP_SIZE,
};

#[test]
fn node_starts_loading_and_waits_for_the_kernel() {
    let mut node = PerlinNoiseNode::default();
    let mut signal = NoiseGenerationRequest::Generate;
    assert_eq!(node.state(), NodeState::Loading);
    assert_eq!(NoiseGenerationRequest::default(), NoiseGenerationRequest::Idle);

    // While the kernel is still compiling the node stays in Loading and the
    // signal slot is left untouched.
    node.update(false, &mut signal);
    assert_eq!(node.state(), NodeState::Loading);
    assert_eq!(signal, NoiseGenerationRequest::Generate);

    node.update(true, &mut signal);
    assert_eq!(node.state(), NodeState::Idle);
    assert_eq!(signal, NoiseGenerationRequest::Generate);
}

#[test]
fn activation_consumes_the_signal_exactly_once() {
    let mut node = PerlinNoiseNode::default();
    let mut signal = NoiseGenerationRequest::Idle;
    node.update(true, &mut signal);
    assert_eq!(node.state(), NodeState::Idle);

    signal = NoiseGenerationRequest::Generate;
    node.update(true, &mut signal);
    assert_eq!(node.state(), NodeState::Generate);
    assert_eq!(signal, NoiseGenerationRequest::Idle);

    // Next tick: the consumed signal keeps the node from running again, and
    // the pipeline passes back through Idle — never back to Loading.
    node.update(true, &mut signal);
    assert_eq!(node.state(), NodeState::Idle);
    assert_eq!(signal, NoiseGenerationRequest::Idle);
}

#[test]
fn no_dispatch_without_an_activation() {
    let mut node = PerlinNoiseNode::default();
    let mut signal = NoiseGenerationRequest::Idle;
    assert_eq!(node.run(true, 64), None);

    node.update(true, &mut signal);
    assert_eq!(node.run(true, 64), None);
}

#[test]
fn dispatch_covers_the_chunk_in_fixed_workgroups() {
    let mut node = PerlinNoiseNode::default();
    let mut signal = NoiseGenerationRequest::Generate;
    node.update(true, &mut signal);
    signal = NoiseGenerationRequest::Generate;
    node.update(true, &mut signal);
    assert_eq!(node.state(), NodeState::Generate);

    // An unprepared output image skips the tick without a dispatch.
    assert_eq!(node.run(false, 64), None);

    assert_eq!(WORKGROUP_SIZE, 8);
    let command = node.run(true, 64).expect("an activation with a ready image must dispatch");
    assert_eq!(
        command,
        DispatchCommand { workgroups_x: 8, workgroups_y: 8, workgroups_z: 1 }
    );
}

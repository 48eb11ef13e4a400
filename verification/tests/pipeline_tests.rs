//! Pipeline bookkeeping: the recorded backend command stream and the
//! per-frame instance accounting.

use nrg_core::Matrix4;
use nrg_core::Pipeline;
use nrg_core::Vector2;
use nrg_core::Vector3;
use nrg_core::Vector4;
use nrg_core::pipeline::Device;
use nrg_core::pipeline::MeshData;
use nrg_core::pipeline::MeshDataRef;
use nrg_core::pipeline::MeshInstance;
use nrg_core::pipeline::MeshOp;
use nrg_core::pipeline::PipelineData;
use nrg_core::pipeline::PipelineId;
use nrg_core::pipeline::RenderCommand;
use nrg_core::pipeline::RenderPass;
use nrg_core::pipeline::ShaderType;
use nrg_core::pipeline::TextureAtlas;
use nrg_core::pipeline::VertexData;

fn pipeline_data(tcs: &str, tes: &str, geometry: &str) -> PipelineData {
    PipelineData {
        vertex_shader: "v.spv".to_owned(),
        fragment_shader: "f.spv".to_owned(),
        tcs_shader: tcs.to_owned(),
        tes_shader: tes.to_owned(),
        geometry_shader: geometry.to_owned(),
    }
}

fn sample_pipeline(data: &PipelineData) -> Pipeline<i64> {
    Pipeline::create(&Device { id: 1 }, PipelineId(40), data, &RenderPass { id: 2 })
}

fn vertex() -> VertexData<i64> {
    VertexData {
        pos: Vector3::new(0, 0, 0),
        normal: Vector3::new(0, 1, 0),
        color: Vector4::new(1, 1, 1, 1),
        tex_coord: Vector2::new(0, 0),
    }
}

fn mesh_instance(vertices: usize, indices: usize) -> MeshInstance<i64> {
    MeshInstance {
        data: MeshData {
            vertices: vec![vertex(); vertices],
            indices: vec![0; indices],
        },
        transform: Matrix4::from_scale(1, 1, 1),
        draw_area: Vector4::new(0, 0, 100, 100),
        visible: true,
    }
}

#[test]
fn create_records_mandatory_shaders_and_build() {
    let pipeline = sample_pipeline(&pipeline_data("", "", ""));
    assert_eq!(pipeline.id(), PipelineId(40));
    assert_eq!(
        pipeline.commands().as_slice(),
        &[
            RenderCommand::SetShader(ShaderType::Vertex, "v.spv".to_owned()),
            RenderCommand::SetShader(ShaderType::Fragment, "f.spv".to_owned()),
            RenderCommand::Build,
        ]
    );
}

#[test]
fn create_records_optional_shaders_when_present() {
    let pipeline = sample_pipeline(&pipeline_data("tc.spv", "te.spv", "g.spv"));
    assert_eq!(
        pipeline.commands().as_slice(),
        &[
            RenderCommand::SetShader(ShaderType::Vertex, "v.spv".to_owned()),
            RenderCommand::SetShader(ShaderType::Fragment, "f.spv".to_owned()),
            RenderCommand::SetShader(ShaderType::TessellationControl, "tc.spv".to_owned()),
            RenderCommand::SetShader(ShaderType::TessellationEvaluation, "te.spv".to_owned()),
            RenderCommand::SetShader(ShaderType::Geometry, "g.spv".to_owned()),
            RenderCommand::Build,
        ]
    );
}

#[test]
fn add_mesh_instance_accounts_geometry() {
    let mut pipeline = sample_pipeline(&pipeline_data("", "", ""));
    let first = mesh_instance(3, 6);
    let second = mesh_instance(2, 3);

    pipeline.prepare();
    pipeline.add_mesh_instance(&first, Vector4::new(1, 0, 0, 1), -1, -1, Vector4::new(0, 0, 0, 0));
    pipeline.add_mesh_instance(&second, Vector4::new(0, 1, 0, 1), 2, 0, Vector4::new(0, 0, 0, 0));

    assert_eq!(pipeline.get_instance_count(), 2);
    let commands = pipeline.get_instance_commands();
    assert_eq!(commands.len(), 2);
    assert_eq!(commands[0].mesh_index, 0);
    assert_eq!(
        commands[0].mesh_data_ref,
        MeshDataRef { first_vertex: 0, vertex_count: 3, first_index: 0, index_count: 6 }
    );
    assert_eq!(commands[1].mesh_index, 1);
    assert_eq!(
        commands[1].mesh_data_ref,
        MeshDataRef { first_vertex: 3, vertex_count: 2, first_index: 6, index_count: 3 }
    );
    let data = pipeline.get_instance_data();
    assert_eq!(data.len(), 2);
    assert_eq!(data[0].diffuse_texture_index, -1);
    assert_eq!(data[1].diffuse_texture_index, 2);
}

#[test]
fn prepare_resets_counts_but_keeps_buffers() {
    let mut pipeline = sample_pipeline(&pipeline_data("", "", ""));
    pipeline.prepare();
    pipeline.add_mesh_instance(
        &mesh_instance(4, 6),
        Vector4::new(1, 1, 1, 1),
        -1,
        -1,
        Vector4::new(0, 0, 0, 0),
    );
    assert!(!pipeline.is_empty());

    pipeline.prepare();
    assert_eq!(pipeline.get_instance_count(), 0);
    // stale buffers remain, but the pipeline counts as empty again
    assert_eq!(pipeline.get_instance_commands().len(), 1);
    assert!(pipeline.is_empty());

    // the stale slot is overwritten by the next frame's first instance
    pipeline.add_mesh_instance(
        &mesh_instance(2, 3),
        Vector4::new(1, 1, 1, 1),
        -1,
        -1,
        Vector4::new(0, 0, 0, 0),
    );
    let commands = pipeline.get_instance_commands();
    assert_eq!(commands.len(), 1);
    assert_eq!(
        commands[0].mesh_data_ref,
        MeshDataRef { first_vertex: 0, vertex_count: 2, first_index: 0, index_count: 3 }
    );
}

#[test]
fn frame_records_expected_command_stream() {
    let mut pipeline = sample_pipeline(&pipeline_data("", "", ""));
    pipeline.prepare();
    pipeline.add_mesh_instance(
        &mesh_instance(3, 3),
        Vector4::new(1, 1, 1, 1),
        -1,
        -1,
        Vector4::new(0, 0, 0, 0),
    );
    let before = pipeline.commands().len();
    pipeline.begin();
    pipeline.update_descriptor_sets(&[TextureAtlas { id: 1 }, TextureAtlas { id: 2 }]);
    pipeline.bind_indirect();
    pipeline.bind_vertices();
    pipeline.bind_indices();
    pipeline.draw_indirect();
    pipeline.end();
    pipeline.destroy();

    assert_eq!(
        &pipeline.commands()[before..],
        &[
            RenderCommand::BindInstances(1, 1),
            RenderCommand::BindDescriptors,
            RenderCommand::UpdateDescriptorSets(2),
            RenderCommand::BindIndirect,
            RenderCommand::DrawIndirect(1),
            RenderCommand::Delete,
        ]
    );
    let mesh_ops = pipeline.mesh_ops();
    assert_eq!(mesh_ops.len(), 3);
    assert!(matches!(mesh_ops[0], MeshOp::WriteAt(_)));
    assert_eq!(mesh_ops[1], MeshOp::BindVertices);
    assert_eq!(mesh_ops[2], MeshOp::BindIndices);
}

#[test]
fn is_empty_needs_instances_and_vertices() {
    let mut pipeline = sample_pipeline(&pipeline_data("", "", ""));
    pipeline.prepare();
    assert!(pipeline.is_empty());
    pipeline.add_mesh_instance(
        &mesh_instance(0, 0),
        Vector4::new(1, 1, 1, 1),
        -1,
        -1,
        Vector4::new(0, 0, 0, 0),
    );
    // an instance without vertices still counts as nothing to draw
    assert!(pipeline.is_empty());
}

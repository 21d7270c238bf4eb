use etib::bindgroup::{BindGroupBuilder, BindGroupResources, WrappedResource};

/// Stand-ins for the GPU objects: a buffer's contents, a texture's size, a
/// sampler's name, and a layout entry's slot.
type Builder = BindGroupBuilder<Vec<f32>, (u32, u32), &'static str, u32>;

#[test]
fn test_bindgroup_builder_headless() {
    let (bg, entries) = Builder::new().add_buffer(0, vec![1.0, 2.0, 3.0, 4.0], 0).finish();
    assert!(bg.get_buffer(0).is_some());
    assert!(bg.get_buffer(1).is_none());
    assert_eq!(entries, vec![0]);
}

#[test]
fn test_data_returns_buffer_resource() {
    let (bg, _) = Builder::new().add_buffer(0, vec![0.0; 4], 0).finish();
    assert!(matches!(bg.data(0), Some(WrappedResource::Buffer(_))));
    assert!(bg.data(1).is_none());
}

#[test]
fn test_get_buffer_returns_none_for_non_buffer_binding() {
    let (bg, _) = Builder::new().add_texture_view(0, (1, 1), 0).finish();
    assert!(bg.get_buffer(0).is_none());
}

#[test]
fn test_add_texture_binding() {
    let (bg, _) = Builder::new().add_texture_view(0, (4, 4), 0).finish();
    assert!(matches!(bg.data(0), Some(WrappedResource::TextureView(_))));
}

#[test]
fn test_add_sampler_binding() {
    let (bg, _) = Builder::new().add_sampler(0, "linear", 0).finish();
    assert!(matches!(bg.data(0), Some(WrappedResource::Sampler(_))));
}

#[test]
fn test_add_cube_texture_binding() {
    let (bg, _) = Builder::new().add_texture_view(0, (4, 4), 0).finish();
    assert!(matches!(bg.data(0), Some(WrappedResource::TextureView(_))));
}

#[test]
fn test_add_storage_texture_binding() {
    let (bg, _) = Builder::new().add_texture_view(0, (4, 4), 0).finish();
    assert!(matches!(bg.data(0), Some(WrappedResource::TextureView(_))));
}

#[test]
fn test_multiple_uniform_buffers() {
    let (bg, entries) = Builder::new()
        .add_buffer(0, vec![1.0, 2.0], 0)
        .add_buffer(1, vec![3.0, 4.0, 5.0, 6.0], 1)
        .finish();
    assert!(bg.get_buffer(0).is_some());
    assert!(bg.get_buffer(1).is_some());
    assert!(bg.get_buffer(2).is_none());
    assert_eq!(bg.get_buffer(1).unwrap().len(), 4);
    assert_eq!(entries, vec![0, 1]);
}

#[test]
fn rebinding_a_slot_replaces_its_resource() {
    let mut res: BindGroupResources<u8, u8, u8> = BindGroupResources::new();
    res.insert(3, WrappedResource::Buffer(1));
    res.insert(3, WrappedResource::Sampler(2));
    assert!(res.get_buffer(3).is_none());
    assert!(matches!(res.data(3), Some(WrappedResource::Sampler(2))));
    let (_, entries) = BindGroupBuilder::<u8, u8, u8, u32>::new()
        .add_buffer(3, 1, 30)
        .add_sampler(3, 2, 31)
        .finish();
    assert_eq!(entries, vec![30, 31]);
}

use cobalt::buffer::{attribute_layout, DataType, VertexAttribute};
use cobalt::window::{SurfaceSize, WindowError};

#[test]
fn position_color_and_texture_coordinates() {
    let attributes = attribute_layout(&[3, 3, 2], DataType::Float).unwrap();
    assert_eq!(
        attributes,
        vec![
            VertexAttribute { index: 0, components: 3, stride: 32, offset: 0 },
            VertexAttribute { index: 1, components: 3, stride: 32, offset: 12 },
            VertexAttribute { index: 2, components: 2, stride: 32, offset: 24 },
        ]
    );
}

#[test]
fn bytes_are_packed_one_by_one() {
    let attributes = attribute_layout(&[4, 0, 1], DataType::UnsignedByte).unwrap();
    assert_eq!(
        attributes,
        vec![
            VertexAttribute { index: 0, components: 4, stride: 5, offset: 0 },
            VertexAttribute { index: 1, components: 0, stride: 5, offset: 4 },
            VertexAttribute { index: 2, components: 1, stride: 5, offset: 4 },
        ]
    );
    assert_eq!(DataType::UnsignedInt.size(), 4);
    assert_eq!(attribute_layout(&[], DataType::Float), Some(vec![]));
}

#[test]
fn stride_must_fit_the_interface() {
    assert!(attribute_layout(&[i32::MAX as u32], DataType::UnsignedByte).is_some());
    assert!(attribute_layout(&[i32::MAX as u32, 1], DataType::UnsignedByte).is_none());
    assert!(attribute_layout(&[536_870_911], DataType::Float).is_some());
    assert!(attribute_layout(&[536_870_912], DataType::Float).is_none());
    assert!(attribute_layout(&[u32::MAX, u32::MAX, u32::MAX], DataType::UnsignedInt).is_none());
}

#[test]
fn surface_takes_a_size_with_two_sides() {
    let mut size = SurfaceSize { width: 1280, height: 720 };
    assert_eq!(size.resize(800, 600), Ok(()));
    assert_eq!(size, SurfaceSize { width: 800, height: 600 });
    assert_eq!(size.resize(0, 600), Err(WindowError::ZeroSize));
    assert_eq!(size.resize(800, 0), Err(WindowError::ZeroSize));
    assert_eq!(size.resize(0, 0), Err(WindowError::ZeroSize));
    assert_eq!(size, SurfaceSize { width: 800, height: 600 });
    assert_eq!(size.resize(1, 1), Ok(()));
    assert_eq!(size, SurfaceSize { width: 1, height: 1 });
}

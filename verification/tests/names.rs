use instance_catalog::error::{Error, Failure};
use instance_catalog::layout::{image_file_name, index_file_name, instance_dir_name, Image};
use instance_catalog::manager::{create_instance, Action, Pending, Step};
use std::path::PathBuf;

#[test]
fn index_file_has_its_fixed_name() {
    assert_eq!(index_file_name(), "instances.index.json");
}

#[test]
fn directory_name_is_the_canonical_form() {
    assert_eq!(
        instance_dir_name(0xa1a2a3a4b1b2c1c2d1d2d3d4d5d6d7d8),
        "a1a2a3a4-b1b2-c1c2-d1d2-d3d4d5d6d7d8"
    );
}

#[test]
fn directory_name_of_zero_and_of_the_largest_identifier() {
    assert_eq!(instance_dir_name(0), "00000000-0000-0000-0000-000000000000");
    assert_eq!(instance_dir_name(u128::MAX), "ffffffff-ffff-ffff-ffff-ffffffffffff");
}

#[test]
fn directory_name_keeps_leading_zeros_and_lower_case() {
    assert_eq!(instance_dir_name(0xABC), "00000000-0000-0000-0000-000000000abc");
    assert_eq!(instance_dir_name(1 << 127), "80000000-0000-0000-0000-000000000000");
}

#[test]
fn image_file_name_keeps_the_extension() {
    assert_eq!(image_file_name("png"), "instance.png");
    assert_eq!(image_file_name("JPEG"), "instance.JPEG");
    assert_eq!(image_file_name(""), "instance.");
}

#[test]
fn extension_is_read_off_the_file_name() {
    assert_eq!(Image::at(PathBuf::from("/pictures/cover.png")).extension.as_deref(), Some("png"));
    assert_eq!(Image::at(PathBuf::from("archive.tar.gz")).extension.as_deref(), Some("gz"));
    assert_eq!(Image::at(PathBuf::from("cover.png")).source, PathBuf::from("cover.png"));
}

#[test]
fn a_path_without_extension_has_none() {
    assert_eq!(Image::at(PathBuf::from("/pictures/cover")).extension, None);
    assert_eq!(Image::at(PathBuf::from("/pictures.d/cover")).extension, None);
    assert_eq!(Image::at(PathBuf::from(".hidden")).extension, None);
    assert_eq!(Image::at(PathBuf::from("")).extension, None);
}

#[test]
fn image_file_name_or_invalid_input() {
    assert_eq!(Image::at(PathBuf::from("a/b.webp")).file_name(), Ok("instance.webp".to_string()));
    assert_eq!(Image::at(PathBuf::from("a/b")).file_name(), Err(Error::InvalidInput));
}

#[test]
fn failures_are_surfaced_unchanged() {
    assert_eq!(Error::from_failure(Failure::Io), Error::Io);
    assert_eq!(Error::from_failure(Failure::Serialization), Error::Serialization);
    assert_eq!(Error::from_failure(Failure::Deserialization), Error::Deserialization);
}

#[test]
fn not_found_message_names_the_identifier() {
    assert_eq!(
        Error::NotFound(0xa1a2a3a4b1b2c1c2d1d2d3d4d5d6d7d8).message(),
        "Failed to find instance with ID `a1a2a3a4-b1b2-c1c2-d1d2-d3d4d5d6d7d8`"
    );
}

#[test]
fn every_error_has_a_message() {
    assert_eq!(Error::Io.message(), "a filesystem operation failed");
    assert_eq!(Error::Serialization.message(), "the instance index could not be serialized");
    assert_eq!(Error::Deserialization.message(), "the instance index could not be deserialized");
    assert_eq!(Error::InvalidInput.message(), "the image path has no usable file extension");
}

fn drawn_id(step: &Step) -> u128 {
    match step {
        Step::Perform(Action::CreateDir { .. }, Pending::CreatingDir { info, .. }) => info.id,
        other => panic!("not the first step of a creation: {:?}", other),
    }
}

#[test]
fn drawn_identifiers_are_random_version_four() {
    let id = drawn_id(&create_instance("Foo".to_string(), None));
    assert_eq!((id >> 76) & 0xf, 4);
    assert_eq!((id >> 62) & 0x3, 2);
}

#[test]
fn two_draws_differ() {
    let a = drawn_id(&create_instance("Foo".to_string(), None));
    let b = drawn_id(&create_instance("Foo".to_string(), None));
    assert_ne!(a, b);
}

#[test]
fn creation_asks_for_the_directory_of_the_drawn_identifier() {
    match create_instance("Foo".to_string(), Some(PathBuf::from("cover.png"))) {
        Step::Perform(Action::CreateDir { dir_name }, Pending::CreatingDir { info, image }) => {
            assert_eq!(dir_name, instance_dir_name(info.id));
            assert_eq!(info.name, "Foo");
            assert_eq!(info.order_index, 0);
            let image = image.expect("the image is kept for later");
            assert_eq!(image.source, PathBuf::from("cover.png"));
            assert_eq!(image.extension.as_deref(), Some("png"));
        }
        other => panic!("not the first step of a creation: {:?}", other),
    }
}

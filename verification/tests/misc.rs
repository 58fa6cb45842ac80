use rip::image_input::{RawImageInput, VulkanImageInput, VulkanImportInfo};
use rip::pipelines::{SwsppData, swspp_create_pipeline, swspp_pulse, swspp_start_pipeline};
use rip::shader_utils::{to_u32_slice, words_in_byte_order};

#[test]
fn pipelines_get_consecutive_ids() {
    let mut data: SwsppData<&str> = SwsppData::new();
    assert_eq!(swspp_create_pipeline(&mut data, "first"), 0);
    assert_eq!(swspp_create_pipeline(&mut data, "second"), 1);
    swspp_start_pipeline(0);
    assert_eq!(swspp_pulse(&data), vec![0, 1]);
    assert_eq!(data.len(), 2);
    assert_eq!(data.get(1), Some(&"second"));
    assert_eq!(data.get(2), None);
    *data.get_mut(0) = "changed";
    assert_eq!(data.get(0), Some(&"changed"));
}

#[test]
fn shader_words_are_in_native_order() {
    let bytes = [1, 0, 0, 0, 0, 1, 0, 0, 9];
    assert_eq!(
        to_u32_slice(&bytes),
        vec![u32::from_ne_bytes([1, 0, 0, 0]), u32::from_ne_bytes([0, 1, 0, 0])]
    );
    assert_eq!(to_u32_slice(&[0x78, 0x56, 0x34, 0x12]), vec![u32::from_ne_bytes([0x78, 0x56, 0x34, 0x12])]);
    assert_eq!(to_u32_slice(&[1, 2, 3]), Vec::<u32>::new());
}

#[test]
fn image_inputs_hold_plain_values() {
    let raw = RawImageInput { image: vec![0; 12], num_compunents: 3, width: 2, height: 2 };
    assert_eq!(raw.image.len(), (raw.num_compunents * raw.width * raw.height) as usize);
    let _vk = VulkanImageInput {};
    let info = VulkanImportInfo { instance: 7, devices: vec![1, 2], num_devices: 2 };
    assert_eq!(info.devices.len(), info.num_devices as usize);
}

#[test]
fn shader_words_in_a_given_byte_order() {
    let bytes = [0x78, 0x56, 0x34, 0x12, 1, 0, 0, 0, 7];
    assert_eq!(words_in_byte_order(&bytes, true), vec![0x1234_5678, 1]);
    assert_eq!(words_in_byte_order(&bytes, false), vec![0x7856_3412, 0x0100_0000]);
    assert_eq!(words_in_byte_order(&[1, 2], true), Vec::<u32>::new());
    let native = words_in_byte_order(&bytes, u32::from_ne_bytes([1, 0, 0, 0]) == 1);
    assert_eq!(to_u32_slice(&bytes), native);
}

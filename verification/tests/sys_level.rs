use deflate_oneshot::{adler32, crc32, CompressionLvl, Compressor, Decompressor};

const MAX_COMP_LVL: i32 = 12;

#[test]
fn lib_can_make_decompressor_at_each_compression_lvl() {
    let mut count: i32 = 0;
    let mut levels = CompressionLvl::iter();
    while let Some(lvl) = levels.next() {
        Compressor::new(lvl);
        Decompressor::new();
        count += 1;
    }
    assert_eq!(count, MAX_COMP_LVL);
}

#[test]
fn lib_making_compressor_with_negative_compression_lvl_fails() {
    assert!(CompressionLvl::new(-1).is_err());
}

#[test]
fn lib_making_compressor_with_too_large_compression_lvl_fails() {
    assert!(CompressionLvl::new(MAX_COMP_LVL + 1).is_err());
}

#[test]
fn lib_can_use_compressor_to_compress_trivially_compressable_data() {
    let in_data = vec![0u8; 1 << 16];
    let mut out_data = vec![0u8; 1 << 16];
    let mut compressor = Compressor::new(CompressionLvl::best());
    let sz = compressor.deflate_compress(&in_data, &mut out_data).unwrap();
    assert_ne!(sz, 0);
    assert!(sz < 100);
}

#[test]
fn lib_can_call_crc32() {
    let buf: [u8; 4] = [0x31, 0x33, 0x33, 0x37];

    let ret = crc32(&buf);

    assert_ne!(ret, 0);
}

#[test]
fn lib_can_call_adler32() {
    let buf: [u8; 4] = [0x31, 0x33, 0x33, 0x37];

    let ret = adler32(&buf);

    assert_ne!(ret, 0);
}

#[test]
fn libdeflate_sys_can_make_decompressor_at_each_compression_lvl() {
    let mut count: i32 = 0;
    let mut levels = CompressionLvl::iter();
    while let Some(lvl) = levels.next() {
        Compressor::new(lvl);
        Decompressor::new();
        count += 1;
    }
    assert_eq!(count, MAX_COMP_LVL);
}

#[test]
fn libdeflate_sys_making_compressor_with_negative_compression_lvl_fails() {
    assert!(CompressionLvl::new(-1).is_err());
}

#[test]
fn libdeflate_sys_making_compressor_with_too_large_compression_lvl_fails() {
    assert!(CompressionLvl::new(MAX_COMP_LVL + 1).is_err());
}

#[test]
fn libdeflate_sys_can_use_compressor_to_compress_trivially_compressable_data() {
    let in_data = vec![0u8; 1 << 16];
    let mut out_data = vec![0u8; 1 << 16];
    let mut compressor = Compressor::new(CompressionLvl::best());
    let sz = compressor.deflate_compress(&in_data, &mut out_data).unwrap();
    assert_ne!(sz, 0);
    assert!(sz < 100);
}

#[test]
fn libdeflate_sys_can_call_crc32() {
    let buf: [u8; 4] = [0x31, 0x33, 0x33, 0x37];

    let ret = crc32(&buf);

    assert_ne!(ret, 0);
}

#[test]
fn libdeflate_sys_can_call_adler32() {
    let buf: [u8; 4] = [0x31, 0x33, 0x33, 0x37];

    let ret = adler32(&buf);

    assert_ne!(ret, 0);
}

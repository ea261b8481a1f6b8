use ttx_rs::chip::noc::{NocAddress, Tile};
use ttx_rs::kernel::{Alignment16, KernelBytes};
use ttx_rs::runtime::firmware::FirmwareParameters;
use ttx_rs::runtime::workload::{get_binary, OutputBuffer, WorkloadBuilder};
use ttx_rs::text::{decimal, hex, signed_decimal};

#[test]
fn numbers_in_decimal() {
    assert_eq!(decimal(0), "0");
    assert_eq!(decimal(7), "7");
    assert_eq!(decimal(10), "10");
    assert_eq!(decimal(1234567890), "1234567890");
    assert_eq!(decimal(u64::MAX), "18446744073709551615");
    assert_eq!(signed_decimal(0), "0");
    assert_eq!(signed_decimal(42), "42");
    assert_eq!(signed_decimal(-1), "-1");
    assert_eq!(signed_decimal(i64::MIN), "-9223372036854775808");
    assert_eq!(signed_decimal(i64::MAX), "9223372036854775807");
    assert_eq!(hex(0), "0");
    assert_eq!(hex(0xf), "f");
    assert_eq!(hex(0x10), "10");
    assert_eq!(hex(0xdead_beef), "deadbeef");
    assert_eq!(hex(u64::MAX), "ffffffffffffffff");
}

#[test]
fn the_names_of_an_output_buffer() {
    let buffer = OutputBuffer { name: "RESULT".to_string(), size: 64, count: 12 };
    assert_eq!(buffer.output_completion(0), "_COMPLETION_SLOT_RESULT_0");
    assert_eq!(buffer.output_completion(11), "_COMPLETION_SLOT_RESULT_11");
    assert_eq!(buffer.output_count(), "_COMPLETION_COUNT_RESULT");
    assert_eq!(buffer.output_buffer(), "RESULT");
    assert_eq!(OutputBuffer::default(), OutputBuffer { name: String::new(), size: 0, count: 0 });
}

#[test]
fn an_input_buffer_is_declared() {
    let mut builder = WorkloadBuilder::default();
    builder.global.push_str("// before");
    builder.input_buffer("IN", 128);
    let name = "IN";
    let size = 128;
    let expected = format!(
        r#"
            #[unsafe(no_mangle)]
            static {name}: NocAlignment<u8, {size}> = NocAlignment::new(0);
          "#
    );
    assert_eq!(builder.global, format!("// before{expected}"));
    assert_eq!(builder.inputs, vec!["IN".to_string()]);
    builder.input_buffer("MORE", 0);
    assert_eq!(builder.inputs, vec!["IN".to_string(), "MORE".to_string()]);
    assert!(builder.global.ends_with("static MORE: NocAlignment<u8, 0> = NocAlignment::new(0);\n          "));
    assert!(builder.outputs.is_empty());
}

#[test]
fn an_output_buffer_is_declared_with_its_waiters() {
    let mut builder = WorkloadBuilder::default();
    let buffer = builder.output_buffer("OUT", 32, 2);
    assert_eq!(buffer, OutputBuffer { name: "OUT".to_string(), size: 32, count: 2 });
    let mut expected = String::new();
    for i in 0..2 {
        let name = format!("_COMPLETION_SLOT_OUT_{i}");
        expected.push_str(&format!(
            r#"
                #[unsafe(no_mangle)]
                static mut {name}: NocAlignment<u32, 1> = NocAlignment::new(0);
            "#
        ));
    }
    let completion_name = "_COMPLETION_COUNT_OUT";
    expected.push_str(&format!(
        r#"
            #[unsafe(no_mangle)]
            static mut {completion_name}: NocAlignment<u8, 4> = NocAlignment::new(0);
          "#
    ));
    let name = "OUT";
    let size = 32;
    expected.push_str(&format!(
        r#"
            #[unsafe(no_mangle)]
            static mut {name}: NocAlignment<u8, {size}> = NocAlignment::new(0);
          "#
    ));
    assert_eq!(builder.global, expected);
    assert!(builder.inputs.is_empty());

    let mut builder = WorkloadBuilder::default();
    let buffer = builder.output_buffer("LONE", 4, 0);
    assert_eq!(buffer.count, 0);
    assert!(!builder.global.contains("_COMPLETION_SLOT_"));
    assert!(builder.global.contains("static mut _COMPLETION_COUNT_LONE: NocAlignment<u8, 4>"));
    assert!(builder.global.contains("static mut LONE: NocAlignment<u8, 4>"));
}

#[test]
fn loops_over_the_elements_of_tensors() {
    let mut builder = WorkloadBuilder::default();
    let before = builder.clone();
    let text = builder.iterate_zip(&[2, 3], &[&[3, 1], &[1, 2]], |indexes| {
        format!("out[{}] = a[{}];", indexes[1], indexes[0])
    });
    assert_eq!(
        text,
        [
            "for _0_it in 0..2u32 {",
            "let _0_tensor_0_dim_index = _0_it * 3;",
            "let _1_tensor_0_dim_index = _0_it * 1;",
            "for _1_it in 0..3u32 {",
            "let _0_tensor_1_dim_index = _0_tensor_0_dim_index + _1_it * 1;",
            "let _1_tensor_1_dim_index = _1_tensor_0_dim_index + _1_it * 2;",
            "let _0_tensor_index = _0_tensor_1_dim_index;",
            "let _1_tensor_index = _1_tensor_1_dim_index;",
            "out[_1_tensor_index] = a[_0_tensor_index];",
            "}",
            "}",
        ]
        .join("\n")
    );
    assert_eq!(builder, before);
    // Without dimensions nothing is written, not even the body.
    assert_eq!(builder.iterate_zip(&[], &[&[], &[]], |_| "body".to_string()), "");
    // Without tensors the loops are empty but for the body.
    assert_eq!(
        builder.iterate_zip(&[-4], &[], |indexes| format!("{}", indexes.len())),
        "for _0_it in 0..-4u32 {\n0\n}"
    );
    // Ten and more loops and tensors are numbered in decimal.
    let strides: Vec<&[usize]> = vec![&[1; 11]; 11];
    let text = builder.iterate_zip(&[1; 11], &strides, |indexes| indexes[10].clone());
    assert!(text.contains("let _10_tensor_10_dim_index = _10_tensor_9_dim_index + _10_it * 1;"));
    assert!(text.contains("\n_10_tensor_index\n}"));
}

#[test]
fn a_binary_is_put_together_from_its_segments() {
    let segment = |addr: u32, data: &[u8]| KernelBytes { addr, data: Alignment16(data.to_vec()) };
    assert_eq!(get_binary(&vec![]), Vec::<u8>::new());
    assert_eq!(get_binary(&vec![segment(2, &[9, 9, 9])]), vec![2, 0, 9, 9, 9]);
    assert_eq!(
        get_binary(&vec![segment(2, &[9, 9, 9]), segment(0, &[1])]),
        vec![1, 0, 9, 9, 9, 0, 0, 0, 0]
    );
    assert_eq!(
        get_binary(&vec![segment(3, &[]), segment(6, &[7, 8])]),
        vec![3, 0, 0, 0, 6, 0, 7, 8]
    );
    // An empty segment at a far address still makes the binary grow.
    let grown = get_binary(&vec![segment(0x0201, &[])]);
    assert_eq!(grown.len(), 0x0201);
    assert_eq!(&grown[..5], &[1, 2, 0, 0, 0]);
    assert_eq!(get_binary(&vec![segment(6, &[5])]), vec![6, 0, 0, 0, 0, 0, 5]);
}

#[test]
fn firmware_parameters() {
    let tile = Tile { addr: NocAddress { n0: (1, 2), n1: (8, 9) }, align_read: 16, align_write: 16 };
    let a = FirmwareParameters { job_server: tile, job_server_addr: 0x1000 };
    let b = a;
    assert_eq!(a, b);
    assert_ne!(a, FirmwareParameters { job_server_addr: 0x1004, ..a });
}

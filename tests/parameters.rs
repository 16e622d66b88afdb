use bao_vhost_frontend::utils::{parse_command_line_arguments, parse_parameter_columns, ParamKey};

/// Reads a compact parameter string: arguments separated by `,`, the values
/// of each separated by `-`.
fn parse_string_parameters(params: &str) -> Option<Vec<Vec<u64>>> {
    let args: Vec<String> = params.split(',').map(|p| p.replace('-', ",")).collect();
    parse_parameter_columns(&args)
}

fn args(list: &[&str]) -> Vec<String> {
    list.iter().map(|s| s.to_string()).collect()
}

#[test]
fn test_parse_parameters_valid_single() {
    let params =
        "vm_id=0,dev_id=22,dev_irq=47,dev_addr=167788032,ram_addr=1476395008,ram_size=16777216";
    let parsed = parse_string_parameters(params);
    assert!(parsed.is_some());
    let parsed = parsed.unwrap();
    assert_eq!(parsed[ParamKey::VmId as usize], vec![0]);
    assert_eq!(parsed[ParamKey::DevId as usize], vec![22]);
    assert_eq!(parsed[ParamKey::DevIrq as usize], vec![47]);
    assert_eq!(parsed[ParamKey::DevAddr as usize], vec![167788032]);
    assert_eq!(parsed[ParamKey::RamAddr as usize], vec![1476395008]);
    assert_eq!(parsed[ParamKey::RamSize as usize], vec![16777216]);
}

#[test]
fn test_parse_parameters_valid_multiple() {
    let params =
        "vm_id=0-1,dev_id=22-29,dev_irq=47-46,dev_addr=167788032-167787520,ram_addr=1476395008-1493172224,ram_size=16777216-16777216";
    let parsed = parse_string_parameters(params);
    assert!(parsed.is_some());
    let parsed = parsed.unwrap();
    assert_eq!(parsed[ParamKey::VmId as usize], vec![0, 1]);
    assert_eq!(parsed[ParamKey::DevId as usize], vec![22, 29]);
    assert_eq!(parsed[ParamKey::DevIrq as usize], vec![47, 46]);
    assert_eq!(
        parsed[ParamKey::DevAddr as usize],
        vec![167788032, 167787520]
    );
    assert_eq!(
        parsed[ParamKey::RamAddr as usize],
        vec![1476395008, 1493172224]
    );
    assert_eq!(parsed[ParamKey::RamSize as usize], vec![16777216, 16777216]);
}

#[test]
fn test_parse_parameters_invalid_single() {
    // Not defined 'vm_id'
    let params = "dev_irq=47,dev_id=22,dev_addr=167788032,ram_addr=1476395008,ram_size=16777216";
    let parsed = parse_string_parameters(params);
    assert!(parsed.is_none());

    // Incorrect value for 'vm_id'
    let params =
        "vm_id=invalid,dev_id=22,dev_irq=47,dev_addr=167788032,ram_addr=1476395008,ram_size=16777216";
    let parsed = parse_string_parameters(params);
    assert!(parsed.is_none());

    // Invalid format
    let params = "vm_id=0,dev_id=22,dev_irq=47,dev_addr=167788032,ram_addr=1476395008,ram_size";
    let parsed = parse_string_parameters(params);
    assert!(parsed.is_none());

    // Out of order
    let params =
        "dev_id=22,dev_irq=47,dev_addr=167788032,,vm_id=0,ram_addr=1476395008,ram_size=16777216";
    let parsed = parse_string_parameters(params);
    assert!(parsed.is_none());
}

#[test]
fn test_parse_parameters_invalid_multiple() {
    // Not defined 'ram_addr'
    let params =
        "vm_id=0-1,dev_id=22,dev_irq=47-48,dev_addr=167788032-167787520,ram_size=16777216-16777216";
    let parsed = parse_string_parameters(params);
    assert!(parsed.is_none());

    // Incorrect value for 'vm_id'
    let params =
        "vm_id=invalid-1,dev_id=22,dev_irq=47-48,dev_addr=167788032-167787520,ram_addr=1476395008-1493172224,ram_size=16777216-16777216";
    let parsed = parse_string_parameters(params);
    assert!(parsed.is_none());

    // Invalid format
    let params = "vm_id=0-1,dev_id=22-29,irq=47-48,dev_addr=167788032-167787520,ram_addr=1476395008,ram_size=16777216-16777216";
    let parsed = parse_string_parameters(params);
    assert!(parsed.is_none());

    // Out of order
    let params =
        "vm_id=0-1,dev_id=22-29,dev_irq=47-48,dev_addr=167788032-167787520,ram_size=16777216-16777216,ram_addr=1476395008-1493172224";
    let parsed = parse_string_parameters(params);
    assert!(parsed.is_none());
}

#[test]
fn single_instance_gives_one_row() {
    let a = args(&[
        "vm_id=0",
        "dev_id=22",
        "dev_irq=47",
        "dev_addr=167788032",
        "ram_addr=1476395008",
        "ram_size=16777216",
    ]);
    assert_eq!(
        parse_command_line_arguments(&a),
        Some(vec![vec![0, 22, 47, 167788032, 1476395008, 16777216]])
    );
}

#[test]
fn two_instances_give_two_rows() {
    let a = args(&[
        "vm_id=0,1",
        "dev_id=22,29",
        "dev_irq=47,46",
        "dev_addr=167788032,167787520",
        "ram_addr=1476395008,1493172224",
        "ram_size=16777216,16777216",
    ]);
    assert_eq!(
        parse_command_line_arguments(&a),
        Some(vec![
            vec![0, 22, 47, 167788032, 1476395008, 16777216],
            vec![1, 29, 46, 167787520, 1493172224, 16777216],
        ])
    );
}

#[test]
fn missing_vm_id_fails() {
    let a = args(&[
        "dev_id=22",
        "dev_irq=47",
        "dev_addr=167788032",
        "ram_addr=1476395008",
        "ram_size=16777216",
    ]);
    assert_eq!(parse_command_line_arguments(&a), None);
}

#[test]
fn each_missing_key_fails() {
    let full = [
        "vm_id=0",
        "dev_id=22",
        "dev_irq=47",
        "dev_addr=167788032",
        "ram_addr=1476395008",
        "ram_size=16777216",
    ];
    for skip in 0..full.len() {
        let a: Vec<String> = full
            .iter()
            .enumerate()
            .filter(|(i, _)| *i != skip)
            .map(|(_, s)| s.to_string())
            .collect();
        assert_eq!(parse_command_line_arguments(&a), None);
    }
}

#[test]
fn dropped_token_causes_length_mismatch() {
    let a = args(&[
        "vm_id=abc,0",
        "dev_id=22,29",
        "dev_irq=47,46",
        "dev_addr=167788032,167787520",
        "ram_addr=1476395008,1493172224",
        "ram_size=16777216,16777216",
    ]);
    assert_eq!(parse_command_line_arguments(&a), None);
}

#[test]
fn unequal_lengths_fail() {
    let a = args(&[
        "vm_id=0,1",
        "dev_id=22,29",
        "dev_irq=47,46",
        "dev_addr=167788032",
        "ram_addr=1476395008,1493172224",
        "ram_size=16777216,16777216",
    ]);
    assert_eq!(parse_command_line_arguments(&a), None);
}

#[test]
fn dropped_tokens_that_keep_lengths_equal_succeed() {
    let a = args(&[
        "vm_id=abc,0",
        "dev_id=22",
        "dev_irq=47,",
        "dev_addr=167788032",
        "ram_addr=1476395008",
        "ram_size=16777216",
    ]);
    assert_eq!(
        parse_command_line_arguments(&a),
        Some(vec![vec![0, 22, 47, 167788032, 1476395008, 16777216]])
    );
}

#[test]
fn repeated_key_replaces_its_column() {
    let a = args(&[
        "vm_id=0",
        "vm_id=5",
        "dev_id=22",
        "dev_irq=47",
        "dev_addr=167788032",
        "ram_addr=1476395008",
        "ram_size=16777216",
    ]);
    assert_eq!(
        parse_command_line_arguments(&a),
        Some(vec![vec![5, 22, 47, 167788032, 1476395008, 16777216]])
    );
}

#[test]
fn key_out_of_order_fails() {
    let a = args(&[
        "dev_id=22",
        "vm_id=0",
        "dev_irq=47",
        "dev_addr=167788032",
        "ram_addr=1476395008",
        "ram_size=16777216",
    ]);
    assert_eq!(parse_command_line_arguments(&a), None);
}

#[test]
fn unknown_key_fails() {
    let a = args(&[
        "vm_id=0",
        "dev_id=22",
        "irq=47",
        "dev_addr=167788032",
        "ram_addr=1476395008",
        "ram_size=16777216",
    ]);
    assert_eq!(parse_command_line_arguments(&a), None);
}

#[test]
fn argument_with_two_equals_signs_fails() {
    let a = args(&[
        "vm_id=0=1",
        "dev_id=22",
        "dev_irq=47",
        "dev_addr=167788032",
        "ram_addr=1476395008",
        "ram_size=16777216",
    ]);
    assert_eq!(parse_command_line_arguments(&a), None);
}

#[test]
fn empty_value_list_fails() {
    let a = args(&[
        "vm_id=",
        "dev_id=22",
        "dev_irq=47",
        "dev_addr=167788032",
        "ram_addr=1476395008",
        "ram_size=16777216",
    ]);
    assert_eq!(parse_command_line_arguments(&a), None);
}

#[test]
fn no_arguments_fail() {
    assert_eq!(parse_command_line_arguments(&Vec::new()), None);
}

#[test]
fn numbers_read_as_std_reads_them() {
    let a = args(&[
        "vm_id=+7",
        "dev_id=18446744073709551615",
        "dev_irq=18446744073709551616,3",
        "dev_addr=-1,4",
        "ram_addr=0010",
        "ram_size=+,9",
    ]);
    assert_eq!(
        parse_command_line_arguments(&a),
        Some(vec![vec![7, 18446744073709551615, 3, 4, 10, 9]])
    );
}

#[test]
fn columns_keep_key_order() {
    let a = args(&[
        "vm_id=0,1",
        "dev_id=22,29",
        "dev_irq=47,46",
        "dev_addr=167788032,167787520",
        "ram_addr=1476395008,1493172224",
        "ram_size=16777216,16777216",
    ]);
    assert_eq!(
        parse_parameter_columns(&a),
        Some(vec![
            vec![0, 1],
            vec![22, 29],
            vec![47, 46],
            vec![167788032, 167787520],
            vec![1476395008, 1493172224],
            vec![16777216, 16777216],
        ])
    );
}

#[test]
fn key_columns_follow_key_order() {
    assert_eq!(ParamKey::VmId.index(), 0);
    assert_eq!(ParamKey::DevId.index(), 1);
    assert_eq!(ParamKey::DevIrq.index(), 2);
    assert_eq!(ParamKey::DevAddr.index(), 3);
    assert_eq!(ParamKey::RamAddr.index(), 4);
    assert_eq!(ParamKey::RamSize.index(), 5);
}

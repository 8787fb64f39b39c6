use patchwork::reverb::{allpass_lengths, comb_lengths, convert_length};

#[test]
fn convert_length_rounds_down() {
    assert_eq!(convert_length(1116), 1214);
    assert_eq!(convert_length(441), 480);
    assert_eq!(convert_length(0), 0);
    assert_eq!(convert_length(44100), 48000);
}

#[test]
fn comb_table_at_engine_rate() {
    let expected = vec![
        (1214, 1239),
        (1293, 1318),
        (1389, 1414),
        (1475, 1500),
        (1547, 1572),
        (1622, 1647),
        (1694, 1719),
        (1760, 1785),
    ];
    assert_eq!(comb_lengths(), expected);
}

#[test]
fn allpass_table_at_engine_rate() {
    assert_eq!(allpass_lengths(), vec![(244, 269), (371, 396), (480, 505), (605, 630)]);
}

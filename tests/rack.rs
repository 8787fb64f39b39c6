use patchwork::rack::{Delivery, Rack};

#[test]
fn registration_gives_dense_port_ids() {
    let mut rack = Rack::new(8);
    assert_eq!(rack.register_module(), 8);
    assert_eq!(rack.register_module(), 9);
    assert_eq!(rack.port_len(), 10);
    assert_eq!(rack.module_len(), 2);
    assert_eq!(rack.midi_inputs(), 8);
}

#[test]
fn changed_ports_fan_out_in_port_order() {
    let mut rack = Rack::new(1);
    let a = rack.register_module();
    let b = rack.register_module();
    rack.patch(a, (b, 0));
    rack.patch(b, (a, 1));
    rack.patch(a, (a, 0));
    rack.set_output(b);
    let (ds, out) = rack.get(&vec![5, 6]);
    assert_eq!(
        ds,
        vec![
            Delivery { module: 1, slot: 0, value: 5 },
            Delivery { module: 0, slot: 0, value: 5 },
            Delivery { module: 0, slot: 1, value: 6 },
        ]
    );
    assert_eq!(out, 6);
    // unchanged outputs cause no writes
    let (ds, out) = rack.get(&vec![5, 6]);
    assert!(ds.is_empty());
    assert_eq!(out, 6);
    let (ds, _) = rack.get(&vec![5, 7]);
    assert_eq!(ds, vec![Delivery { module: 0, slot: 1, value: 7 }]);
}

#[test]
fn no_output_selected_reports_zero() {
    let mut rack = Rack::new(0);
    rack.register_module();
    let (_, out) = rack.get(&vec![42]);
    assert_eq!(out, 0);
    assert_eq!(rack.value(0), 42);
}

#[test]
fn control_propagates_at_once() {
    let mut rack = Rack::new(2);
    let m = rack.register_module();
    rack.patch(1, (m, 3));
    let ds = rack.process_control(1, 99);
    assert_eq!(ds, vec![Delivery { module: 0, slot: 3, value: 99 }]);
    assert_eq!(rack.value(1), 99);
    assert!(rack.process_control(2, 5).is_empty());
    assert!(rack.process_control(0, 5).is_empty());
    assert_eq!(rack.value(0), 5);
}

#[test]
fn fixed_input_is_overwritten_by_staged_word() {
    let mut rack = Rack::new(1);
    let m = rack.register_module();
    rack.patch(0, (m, 0));
    rack.fix_input(0, 3);
    assert_eq!(rack.value(0), 3);
    let (ds, _) = rack.get(&vec![0]);
    assert_eq!(ds, vec![Delivery { module: 0, slot: 0, value: 0 }]);
    assert_eq!(rack.value(0), 0);
}

// A counter module: each sample it outputs its input plus one. Patched
// into itself, it counts up by one per sample, because its input is what
// it produced on the sample before.
#[test]
fn feedback_cable_delays_one_sample() {
    let mut rack = Rack::new(0);
    let m = rack.register_module();
    rack.patch(m, (m, 0));
    rack.set_output(m);
    let mut input: u64 = 0;
    let mut outputs = Vec::new();
    for _ in 0..5 {
        let produced = input + 1;
        let (ds, out) = rack.get(&vec![produced]);
        outputs.push(out);
        for d in ds {
            assert_eq!((d.module, d.slot), (0, 0));
            input = d.value;
        }
        assert_eq!(input, produced);
    }
    assert_eq!(outputs, vec![1, 2, 3, 4, 5]);
    assert_eq!(rack.destinations(m), vec![(0, 0)]);
}

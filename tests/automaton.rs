use patchwork::automaton::Cellular;

fn single(i: usize) -> Vec<bool> {
    let mut cells = vec![false; 16];
    cells[i] = true;
    cells
}

#[test]
fn rule_110_grows_leftward() {
    let mut c = Cellular::from_cells(110, single(0));
    c.step();
    let mut expected = vec![false; 16];
    expected[0] = true;
    expected[15] = true;
    assert_eq!(c.cells(), expected);
}

#[test]
fn rule_30_on_sparse_ring() {
    let cells: Vec<bool> = (0..16).map(|i| i % 3 == 0).collect();
    let mut c = Cellular::from_cells(30, cells);
    c.step();
    let mut expected = vec![true; 16];
    expected[0] = false;
    assert_eq!(c.cells(), expected);
}

#[test]
fn rule_0_clears_everything() {
    let mut c = Cellular::from_cells(0, vec![true; 16]);
    c.step();
    assert_eq!(c.cells(), vec![false; 16]);
}

#[test]
fn sample_extremes() {
    assert_eq!(Cellular::from_cells(0, vec![false; 16]).get_i16(), -32767);
    assert_eq!(Cellular::from_cells(0, vec![true; 16]).get_i16(), 32767);
    assert_eq!(Cellular::from_cells(0, single(0)).get_i16(), -32766);
}

#[test]
fn sample_of_sparse_ring() {
    let cells: Vec<bool> = (0..16).map(|i| i % 3 == 0).collect();
    assert_eq!(Cellular::from_cells(30, cells).get_i16(), 4681);
}

#[test]
fn random_ring_has_sixteen_cells() {
    let mut c = Cellular::new(110);
    assert_eq!(c.cells().len(), 16);
    c.step();
    assert_eq!(c.cells().len(), 16);
}

//! Behavior of the cyclic ring update engine: size preservation,
//! wraparound boundaries, and the absorbing uniform genomes.

use automaton::cell::{Cell, Genome, State};
use automaton::organism::Organism;

fn on() -> Cell {
    Cell { state: State::On }
}

fn off() -> Cell {
    Cell { state: State::Off }
}

fn states(o: &Organism) -> Vec<State> {
    o.cells().iter().map(|c| c.state).collect()
}

#[test]
fn tick_preserves_ring_size() {
    let g = Genome::new();
    for size in [3, 7, 10, 48] {
        let mut o = Organism::from_genome(&g, size);
        assert_eq!(o.cells().len(), size);
        for _ in 0..5 {
            o = o.tick();
            assert_eq!(o.cells().len(), size);
        }
    }
}

#[test]
fn from_genome_builds_requested_size() {
    let g = Genome::new();
    let o = Organism::from_genome(&g, 48);
    assert_eq!(o.cells().len(), 48);
}

#[test]
fn all_zero_genome_is_absorbing() {
    let g = Genome::from_hex_str("00000000000000000000000000000000").unwrap();
    let mut cells = vec![off(); 48];
    for i in [0, 5, 13, 30, 47] {
        cells[i] = on();
    }
    let mut o = Organism::from_cells(&g, cells);
    for _ in 0..3 {
        o = o.tick();
        assert!(states(&o).iter().all(|s| *s == State::Off));
        assert_eq!(o.cells().len(), 48);
    }
}

#[test]
fn all_one_genome_is_absorbing() {
    let g = Genome::from_hex_str("FFFFFFFFFFFFFFFFFFFFFFFFFFFFFFFF").unwrap();
    let mut cells = vec![off(); 11];
    cells[4] = on();
    let mut o = Organism::from_cells(&g, cells);
    for _ in 0..3 {
        o = o.tick();
        assert!(states(&o).iter().all(|s| *s == State::On));
        assert_eq!(o.cells().len(), 11);
    }
}

#[test]
fn key_derivation_reaches_entry_64() {
    // Ring of 7 cells [On, Off, Off, Off, Off, Off, Off]: the window of
    // cell 3 is the whole ring in order, with the On cell leftmost, so
    // its key is 0b1000000 = 64. Only table entry 64 is on, so exactly
    // cell 3 is on after one tick; every other window sees the On cell
    // at a less significant position and reads an entry that is off.
    let g = Genome::from_hex_str("00000000000000001000000000000000").unwrap();
    let mut cells = vec![off(); 7];
    cells[0] = on();
    let o = Organism::from_cells(&g, cells).tick();
    let expected = vec![
        State::Off,
        State::Off,
        State::Off,
        State::On,
        State::Off,
        State::Off,
        State::Off,
    ];
    assert_eq!(states(&o), expected);
}

#[test]
fn first_cell_neighborhood_wraps_to_ring_end() {
    // Ring of 10 cells with only cell 7 on: cell 7 sits leftmost in the
    // window [c7, c8, c9, c0, c1, c2, c3] of cell 0 and nowhere else, so
    // with only table entry 64 on, exactly cell 0 is on after one tick.
    let g = Genome::from_hex_str("00000000000000001000000000000000").unwrap();
    let mut cells = vec![off(); 10];
    cells[7] = on();
    let o = Organism::from_cells(&g, cells).tick();
    let got = states(&o);
    for (i, s) in got.iter().enumerate() {
        let expected = if i == 0 { State::On } else { State::Off };
        assert_eq!(*s, expected, "cell {}", i);
    }
}

#[test]
fn last_cell_neighborhood_wraps_to_ring_start() {
    // Ring of 10 cells with only cell 2 on: cell 2 sits rightmost in the
    // window [c6, c7, c8, c9, c0, c1, c2] of cell 9 and nowhere else, so
    // with only table entry 1 on, exactly cell 9 is on after one tick.
    let g = Genome::from_hex_str("20000000000000000000000000000000").unwrap();
    let mut cells = vec![off(); 10];
    cells[2] = on();
    let o = Organism::from_cells(&g, cells).tick();
    let got = states(&o);
    for (i, s) in got.iter().enumerate() {
        let expected = if i == 9 { State::On } else { State::Off };
        assert_eq!(*s, expected, "cell {}", i);
    }
}

#[test]
fn from_cells_keeps_the_given_ring() {
    let g = Genome::new();
    let cells = vec![on(), off(), on(), on(), off(), off(), on()];
    let o = Organism::from_cells(&g, cells);
    let expected = vec![
        State::On,
        State::Off,
        State::On,
        State::On,
        State::Off,
        State::Off,
        State::On,
    ];
    assert_eq!(states(&o), expected);
}

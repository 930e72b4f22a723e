use sparrow::engine::gradient::is_outside;
use sparrow::engine::led::{Blend, Colour, Gradient, Gradients};
use sparrow::error::Error;
use sparrow::number::Single;

fn at(position: f32) -> Single {
    Single { bits: position.to_bits() }
}

fn grey(n: u8) -> Colour {
    Colour { red: n, green: n, blue: n }
}

fn gradient(stops: &[(u8, f32)]) -> Gradient {
    Gradient { colours: stops.iter().map(|s| (grey(s.0), at(s.1))).collect() }
}

fn shown(g: &Gradient) -> Vec<(u8, f32)> {
    g.colours.iter().map(|s| (s.0.red, f32::from_bits(s.1.bits))).collect()
}

#[test]
fn a_new_gradient_is_black_everywhere() {
    let g = Gradient::new();
    assert_eq!(g.colours.len(), 0);
    for position in [-1.0, 0.0, 0.5, 1.0, f32::NAN] {
        assert_eq!(g.interpolate(at(position)), Blend::Solid(Colour::black()));
    }
}

#[test]
fn a_single_colour_is_shown_everywhere() {
    let mut g = Gradient::new();
    g.add_colour(grey(7));
    assert_eq!(shown(&g), vec![(7, 1.0)]);
    for position in [-1.0, 0.0, 0.5, 1.0, f32::NAN] {
        assert_eq!(g.interpolate(at(position)), Blend::Solid(grey(7)));
    }
}

#[test]
fn colours_are_added_at_the_end() {
    let mut g = gradient(&[(1, 0.0), (2, 0.5)]);
    g.add_colour(grey(3));
    assert_eq!(shown(&g), vec![(1, 0.0), (2, 0.5), (3, 1.0)]);
}

#[test]
fn moving_a_colour_sorts_the_gradient() {
    let mut g = gradient(&[(1, 0.0), (2, 0.5), (3, 1.0)]);
    assert!(g.can_move(0, at(0.75)));
    g.change_position(0, at(0.75));
    assert_eq!(shown(&g), vec![(2, 0.5), (1, 0.75), (3, 1.0)]);
    g.change_position(2, at(0.0));
    assert_eq!(shown(&g), vec![(3, 0.0), (2, 0.5), (1, 0.75)]);
}

#[test]
fn stops_at_one_position_keep_their_order() {
    let mut g = gradient(&[(1, 0.5), (2, 0.5), (3, 0.5), (4, 0.25)]);
    g.change_position(3, at(0.5));
    assert_eq!(shown(&g), vec![(1, 0.5), (2, 0.5), (3, 0.5), (4, 0.5)]);
    g.change_position(0, at(-0.0));
    g.change_position(2, at(0.0));
    assert_eq!(shown(&g), vec![(1, 0.0), (3, 0.0), (2, 0.5), (4, 0.5)]);
}

#[test]
fn sorting_agrees_with_the_sort_of_slices() {
    let mut seed: u32 = 12345;
    for _ in 0..200 {
        let mut stops: Vec<(u8, f32)> = Vec::new();
        for i in 0..12u8 {
            seed = seed.wrapping_mul(1664525).wrapping_add(1013904223);
            stops.push((i, ((seed >> 24) % 8) as f32 / 8.0));
        }
        let mut g = gradient(&stops);
        stops[5].1 = 0.5;
        stops.sort_by(|a, b| a.1.partial_cmp(&b.1).unwrap());
        g.change_position(5, at(0.5));
        assert_eq!(shown(&g), stops);
    }
}

#[test]
fn only_numbers_can_be_sorted() {
    let g = gradient(&[(1, 0.0), (2, 0.5)]);
    assert!(!g.can_move(0, at(f32::NAN)));
    assert!(g.can_move(0, at(f32::INFINITY)));
    let one = gradient(&[(1, 0.0)]);
    assert!(one.can_move(0, at(f32::NAN)));
    let mixed = gradient(&[(1, f32::NAN), (2, 0.5)]);
    assert!(mixed.can_move(0, at(0.25)));
    assert!(!mixed.can_move(1, at(0.25)));
}

#[test]
fn colours_change_and_go() {
    let mut g = gradient(&[(1, 0.0), (2, 0.5), (3, 1.0)]);
    g.change_colour(1, grey(9));
    assert_eq!(shown(&g), vec![(1, 0.0), (9, 0.5), (3, 1.0)]);
    assert!(g.delete_colour(0).is_ok());
    assert_eq!(shown(&g), vec![(9, 0.5), (3, 1.0)]);
    assert!(matches!(g.delete_colour(2), Err(Error::IndexOutOfRange)));
    assert_eq!(shown(&g), vec![(9, 0.5), (3, 1.0)]);
}

#[test]
fn edits_are_checked() {
    let mut g = gradient(&[(1, 0.0), (2, 0.5)]);
    assert!(matches!(g.edit_colour_position(2, at(0.5)), Err(Error::IndexOutOfRange)));
    assert!(matches!(g.edit_colour_position(0, at(-0.1)), Err(Error::PositionOutOfRange)));
    assert!(matches!(g.edit_colour_position(0, at(1.1)), Err(Error::PositionOutOfRange)));
    assert!(matches!(g.edit_colour_position(0, at(f32::NAN)), Err(Error::PositionOutOfRange)));
    assert!(matches!(g.edit_colour_value(2, grey(5)), Err(Error::IndexOutOfRange)));
    assert_eq!(shown(&g), vec![(1, 0.0), (2, 0.5)]);
    assert!(g.edit_colour_position(0, at(1.0)).is_ok());
    assert!(g.edit_colour_value(0, grey(5)).is_ok());
    assert_eq!(shown(&g), vec![(5, 0.5), (1, 1.0)]);
}

#[test]
fn positions_are_numbers_from_zero_to_one() {
    for position in [0.0, -0.0, f32::MIN_POSITIVE, 0.5, 1.0] {
        assert!(!is_outside(at(position)), "{position}");
    }
    let refused = [-f32::MIN_POSITIVE, 1.0000001, f32::INFINITY, f32::NEG_INFINITY, f32::NAN];
    for position in refused {
        assert!(is_outside(at(position)), "{position}");
        let mut lone = gradient(&[(1, 0.25)]);
        let result = lone.edit_colour_position(0, at(position));
        assert!(matches!(result, Err(Error::PositionOutOfRange)), "{position}");
        assert_eq!(shown(&lone), vec![(1, 0.25)]);
    }
}

#[test]
fn positions_fall_between_neighbours() {
    let g = gradient(&[(1, 0.25), (2, 0.5), (3, 0.75)]);
    let pair = |i: usize| Blend::Between(g.colours[i], g.colours[i + 1]);
    assert_eq!(g.interpolate(at(0.0)), Blend::Solid(grey(1)));
    assert_eq!(g.interpolate(at(0.25)), pair(0));
    assert_eq!(g.interpolate(at(0.3)), pair(0));
    assert_eq!(g.interpolate(at(0.5)), pair(0));
    assert_eq!(g.interpolate(at(0.6)), pair(1));
    assert_eq!(g.interpolate(at(0.75)), pair(1));
    assert_eq!(g.interpolate(at(0.9)), Blend::Solid(grey(3)));
    assert_eq!(g.interpolate(at(f32::NAN)), Blend::Solid(grey(3)));
}

#[test]
fn a_bar_ends_at_one() {
    let g = gradient(&[(1, 0.0), (2, 1.0)]);
    let bar = g.bar(&vec![at(0.0), at(0.5)]);
    assert_eq!(bar.len(), 3);
    assert_eq!(bar[0], g.interpolate(at(0.0)));
    assert_eq!(bar[1], g.interpolate(at(0.5)));
    assert_eq!(bar[2], g.interpolate(at(1.0)));
    let empty = Gradient::new().bar(&vec![]);
    assert_eq!(empty, vec![Blend::Solid(Colour::black())]);
}

#[test]
fn a_gradient_is_copied_whole() {
    let g = gradient(&[(1, 0.0), (2, 1.0)]);
    assert_eq!(shown(&g.clone()), shown(&g));
}

fn listed(all: &Gradients) -> Vec<(String, bool, usize)> {
    all.info().into_iter().map(|i| (i.name, i.selected, i.data.colours.len())).collect()
}

#[test]
fn gradients_are_listed_by_name() {
    let mut all = Gradients::new();
    assert!(listed(&all).is_empty());
    assert!(all.get_current().is_none());
    for name in ["b", "a", "é", "B"] {
        assert!(all.add(name, Gradient::new(), false).is_ok());
    }
    let names: Vec<String> = listed(&all).into_iter().map(|i| i.0).collect();
    assert_eq!(names, vec!["B", "a", "b", "é"]);
    let selected: Vec<bool> = listed(&all).into_iter().map(|i| i.1).collect();
    assert_eq!(selected, vec![true, false, false, false]);
}

#[test]
fn a_gradient_is_found_under_its_name() {
    let mut all = Gradients::default();
    assert!(all.add("warm", gradient(&[(1, 0.0)]), false).is_ok());
    assert!(all.add("cold", gradient(&[(2, 0.0), (3, 1.0)]), false).is_ok());
    assert_eq!(shown(&all.get("warm").unwrap()), vec![(1, 0.0)]);
    assert_eq!(shown(&all.get_current().unwrap()), vec![(2, 0.0), (3, 1.0)]);
    assert!(matches!(all.get("hot"), Err(Error::GradientMissing)));
}

#[test]
fn a_name_is_kept_unless_overwritten() {
    let mut all = Gradients::new();
    assert!(all.add("warm", gradient(&[(1, 0.0)]), false).is_ok());
    assert!(all.add("cold", Gradient::new(), false).is_ok());
    assert!(matches!(all.add("warm", Gradient::new(), false), Err(Error::GradientExists)));
    assert_eq!(shown(&all.get("warm").unwrap()), vec![(1, 0.0)]);
    assert_eq!(listed(&all), vec![("cold".to_string(), true, 0), ("warm".to_string(), false, 1)]);
    assert!(all.add("warm", gradient(&[(4, 0.0), (5, 0.5)]), true).is_ok());
    assert_eq!(listed(&all), vec![("cold".to_string(), false, 0), ("warm".to_string(), true, 2)]);
}

#[test]
fn the_gradient_in_use_is_chosen_by_name() {
    let mut all = Gradients::new();
    assert!(matches!(all.set_current("warm"), Err(Error::GradientMissing)));
    assert!(all.add("warm", gradient(&[(1, 0.0)]), false).is_ok());
    assert!(all.add("cold", Gradient::new(), false).is_ok());
    assert!(all.set_current("warm").is_ok());
    assert!(matches!(all.set_current("hot"), Err(Error::GradientMissing)));
    assert_eq!(listed(&all), vec![("cold".to_string(), false, 0), ("warm".to_string(), true, 1)]);
}

#[test]
fn a_deleted_gradient_is_gone() {
    let mut all = Gradients::new();
    assert!(all.add("warm", gradient(&[(1, 0.0)]), false).is_ok());
    assert!(all.add("cold", Gradient::new(), false).is_ok());
    assert!(all.delete("warm").is_ok());
    assert!(all.delete("warm").is_ok());
    assert_eq!(listed(&all), vec![("cold".to_string(), true, 0)]);
    assert!(all.delete("cold").is_ok());
    assert!(all.get_current().is_none());
    assert!(listed(&all).is_empty());
}

#[test]
fn deleting_undoes_adding() {
    let mut all = Gradients::new();
    assert!(all.add("warm", gradient(&[(1, 0.0)]), false).is_ok());
    assert!(all.add("new", Gradient::new(), false).is_ok());
    assert!(all.delete("new").is_ok());
    assert_eq!(listed(&all), vec![("warm".to_string(), false, 1)]);
}

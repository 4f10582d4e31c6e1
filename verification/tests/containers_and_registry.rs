use lazyseq::ops::MapOp;
use lazyseq::registry::{Animal, Pet, Plugin, PluginManager, Shape};
use lazyseq::vectors::{Counter, FullVector, ModernVector, MyVector, SimpleVector};

#[test]
fn counter_yields_counts_strictly_below_its_bound() {
    let mut counter = Counter::new(35);
    let mut seen: Vec<u32> = Vec::new();
    while let Some(x) = counter.next() {
        seen.push(x);
    }
    let expected: Vec<u32> = (1..35).collect();
    assert_eq!(seen, expected);
}

#[test]
fn counter_exhaustion_is_idempotent() {
    let mut counter = Counter::new(3);
    assert_eq!(counter.next(), Some(1));
    assert_eq!(counter.next(), Some(2));
    for _ in 0..10 {
        assert_eq!(counter.next(), None);
    }
}

#[test]
fn counter_with_zero_bound_is_born_exhausted() {
    let mut counter = Counter::new(0);
    assert_eq!(counter.next(), None);
    assert_eq!(counter.next(), None);
}

#[test]
fn simple_vector_iterates_what_was_pushed() {
    let mut sv = SimpleVector::new();
    sv.push(1);
    sv.push(2);
    sv.push(3);
    assert_eq!(sv.iter().collect(), vec![1, 2, 3]);
}

#[test]
fn my_vector_cursor_walks_and_exhausts() {
    let mut mv = MyVector::new();
    mv.push(10);
    mv.push(20);
    mv.push(30);
    let mut it = mv.iter();
    assert_eq!(it.next(), Some(10));
    assert_eq!(it.next(), Some(20));
    assert_eq!(it.next(), Some(30));
    assert_eq!(it.next(), None);
    assert_eq!(it.next(), None);
}

#[test]
fn modern_vector_full_and_even_index_walks() {
    let mut modv = ModernVector::new();
    modv.push(100);
    modv.push(200);
    modv.push(300);
    modv.push(400);
    assert_eq!(modv.iter().collect(), vec![100, 200, 300, 400]);
    assert_eq!(modv.iter_even_indices().collect(), vec![100, 300]);
}

#[test]
fn full_vector_cursor_len_shrinks_as_it_walks() {
    let mut fv = FullVector::new();
    fv.push(5);
    fv.push(10);
    fv.push(15);
    let mut iter = fv.iter();
    assert_eq!(iter.len(), 3);
    assert_eq!(iter.next(), Some(5));
    assert_eq!(iter.len(), 2);
    assert_eq!(iter.next_back(), Some(15));
    assert_eq!(iter.len(), 1);
}

#[test]
fn full_vector_next_back_consumes_from_the_rear() {
    let mut fv = FullVector::new();
    fv.push(5);
    fv.push(10);
    fv.push(15);
    let mut iter = fv.iter();
    assert_eq!(iter.next_back(), Some(15));
    assert_eq!(iter.next(), Some(5));
    assert_eq!(iter.next_back(), Some(10));
    assert_eq!(iter.next(), None);
    assert_eq!(iter.next_back(), None);
}

#[test]
fn front_and_back_yield_each_element_exactly_once() {
    let mut fv = FullVector::new();
    for x in [1, 2, 3, 4] {
        fv.push(x);
    }
    let mut iter = fv.iter();
    assert_eq!(iter.next(), Some(1));
    assert_eq!(iter.next_back(), Some(4));
    assert_eq!(iter.next(), Some(2));
    assert_eq!(iter.next_back(), Some(3));
    assert_eq!(iter.next(), None);
    assert_eq!(iter.next_back(), None);
}

#[test]
fn full_vector_mutating_traversal_rewrites_in_place() {
    let mut fv = FullVector::new();
    for x in [1, 2, 3, 4, 5] {
        fv.push(x);
    }
    fv.iter_mut(&MapOp::Plus(10));
    let mut it = fv.iter();
    let mut seen: Vec<i64> = Vec::new();
    while let Some(v) = it.next() {
        seen.push(v);
    }
    assert_eq!(seen, vec![11, 12, 13, 14, 15]);
}

#[test]
fn animals_speak_their_kind_and_keep_their_names() {
    let dog = Animal::Dog {
        name: "Buddy".to_owned(),
    };
    let cat = Animal::Cat {
        name: "Whiskers".to_owned(),
    };
    assert_eq!(dog.make_sound(), "Woof!");
    assert_eq!(cat.make_sound(), "Meow!");
    assert_eq!(dog.name(), "Buddy");
    assert_eq!(cat.name(), "Whiskers");
}

#[test]
fn a_heterogeneous_roster_speaks_in_order() {
    let animals = vec![
        Animal::Dog {
            name: "Buddy".to_owned(),
        },
        Animal::Cat {
            name: "Whiskers".to_owned(),
        },
        Animal::Dog {
            name: "Max".to_owned(),
        },
        Animal::Cat {
            name: "Felix".to_owned(),
        },
    ];
    let sounds: Vec<String> = animals.iter().map(|a| a.make_sound()).collect();
    assert_eq!(sounds, vec!["Woof!", "Meow!", "Woof!", "Meow!"]);
}

#[test]
fn training_raises_skill_one_step_at_a_time() {
    let mut pet = Pet {
        name: "Fido".to_owned(),
        skill: 0,
    };
    pet.train();
    assert_eq!(pet.skill_level(), 1);
    pet.train();
    assert_eq!(pet.skill_level(), 2);
}

#[test]
fn shapes_announce_their_drawing() {
    let shapes = vec![Shape::Circle, Shape::Rectangle, Shape::Circle];
    let lines: Vec<String> = shapes.iter().map(|s| s.draw()).collect();
    assert_eq!(
        lines,
        vec!["Drawing a circle", "Drawing a rectangle", "Drawing a circle"]
    );
}

#[test]
fn plugin_manager_runs_all_in_insertion_order() {
    let mut manager = PluginManager::new();
    manager.register(Plugin::Logger);
    manager.register(Plugin::Metrics);
    let ran = manager.run_all();
    assert_eq!(ran.len(), 2);
    assert_eq!(ran[0].0, "Logger");
    assert_eq!(ran[0].1, "[Logger] Logging data...");
    assert_eq!(ran[1].0, "Metrics");
    assert_eq!(ran[1].1, "[Metrics] Collecting metrics...");
}

#[test]
fn plugin_manager_keeps_duplicates() {
    let mut manager = PluginManager::new();
    manager.register(Plugin::Logger);
    manager.register(Plugin::Logger);
    let ran = manager.run_all();
    assert_eq!(ran.len(), 2);
    assert_eq!(ran[0].0, "Logger");
    assert_eq!(ran[1].0, "Logger");
}

#[test]
fn empty_registry_runs_nothing() {
    let manager = PluginManager::new();
    assert!(manager.run_all().is_empty());
}

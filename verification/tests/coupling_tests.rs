use planet_sim::coupling::{
    bind, call, read_index, write_index, BindError, BufferId, Ownership, Quantity,
    FLOW_COMPONENTS,
};

fn id(quantity: Quantity, generation: usize) -> BufferId {
    BufferId { quantity, generation }
}

#[test]
fn generations_alternate() {
    for n in 0..100usize {
        assert_eq!(read_index(n), n % 2);
        assert_eq!(write_index(n), (n + 1) % 2);
        assert_eq!(read_index(n), write_index(n + 1));
        assert_eq!(write_index(n), read_index(n + 1));
        assert_ne!(read_index(n), write_index(n));
    }
}

#[test]
fn generations_at_the_end_of_the_count() {
    assert_eq!(read_index(usize::MAX), 1);
    assert_eq!(write_index(usize::MAX), 0);
    assert_eq!(read_index(usize::MAX - 1), 0);
    assert_eq!(write_index(usize::MAX - 1), 1);
}

#[test]
fn flow_has_three_components() {
    assert_eq!(FLOW_COMPONENTS, 3);
}

#[test]
fn bind_accepts_matching_arrays() {
    let cells = vec![0u32; 27];
    let flow = vec![0u32; 81];
    let bound = bind([&cells, &cells], [&flow, &flow], [&cells, &cells], (3, 3, 3));
    let coupling = match bound {
        Ok(coupling) => coupling,
        Err(e) => panic!("refused: {:?}", e),
    };
    assert_eq!(coupling.extent(), (3, 3, 3));
    assert!(coupling.is_idle());
    assert_eq!(
        coupling.arguments(),
        [
            id(Quantity::Mass, 0),
            id(Quantity::Flow, 0),
            id(Quantity::Temperature, 0),
            id(Quantity::Mass, 1),
            id(Quantity::Flow, 1),
            id(Quantity::Temperature, 1),
        ]
    );
    assert_eq!(coupling.ownership(0), Ownership::HostOwned);
    assert_eq!(coupling.ownership(1), Ownership::HostOwned);
}

#[test]
fn bind_accepts_a_grid_that_is_no_cube() {
    let cells = vec![0u32; 24];
    let flow = vec![0u32; 72];
    assert!(bind([&cells, &cells], [&flow, &flow], [&cells, &cells], (2, 3, 4)).is_ok());
}

#[test]
fn bind_refuses_an_empty_extent() {
    let none: Vec<u32> = vec![];
    let bound = bind([&none, &none], [&none, &none], [&none, &none], (0, 3, 3));
    assert_eq!(bound.err(), Some(BindError::Extent));
    let bound = bind([&none, &none], [&none, &none], [&none, &none], (3, 3, 0));
    assert_eq!(bound.err(), Some(BindError::Extent));
}

#[test]
fn bind_refuses_an_extent_beyond_the_machine() {
    let none: Vec<u32> = vec![];
    let bound = bind(
        [&none, &none],
        [&none, &none],
        [&none, &none],
        (usize::MAX, usize::MAX, 2),
    );
    assert_eq!(bound.err(), Some(BindError::Extent));
    let bound = bind(
        [&none, &none],
        [&none, &none],
        [&none, &none],
        (usize::MAX, 1, 2),
    );
    assert_eq!(bound.err(), Some(BindError::Extent));
}

#[test]
fn bind_names_the_first_array_of_the_wrong_length() {
    let cells = vec![0u32; 27];
    let flow = vec![0u32; 81];
    let short = vec![0u32; 26];
    let long = vec![0u32; 82];

    let r = bind([&short, &cells], [&flow, &flow], [&cells, &cells], (3, 3, 3));
    assert_eq!(r.err(), Some(BindError::Length(id(Quantity::Mass, 0))));
    let r = bind([&cells, &short], [&flow, &flow], [&cells, &cells], (3, 3, 3));
    assert_eq!(r.err(), Some(BindError::Length(id(Quantity::Mass, 1))));
    let r = bind([&cells, &cells], [&cells, &flow], [&cells, &cells], (3, 3, 3));
    assert_eq!(r.err(), Some(BindError::Length(id(Quantity::Flow, 0))));
    let r = bind([&cells, &cells], [&flow, &long], [&cells, &cells], (3, 3, 3));
    assert_eq!(r.err(), Some(BindError::Length(id(Quantity::Flow, 1))));
    let r = bind([&cells, &cells], [&flow, &flow], [&long, &cells], (3, 3, 3));
    assert_eq!(r.err(), Some(BindError::Length(id(Quantity::Temperature, 0))));
    let r = bind([&cells, &cells], [&flow, &flow], [&cells, &flow], (3, 3, 3));
    assert_eq!(r.err(), Some(BindError::Length(id(Quantity::Temperature, 1))));
    // the first fault wins
    let r = bind([&cells, &short], [&short, &flow], [&short, &cells], (3, 3, 3));
    assert_eq!(r.err(), Some(BindError::Length(id(Quantity::Mass, 1))));
}

#[test]
fn call_plans_an_even_step() {
    let cells = vec![0u32; 27];
    let flow = vec![0u32; 81];
    let mut coupling = bind([&cells, &cells], [&flow, &flow], [&cells, &cells], (3, 3, 3)).unwrap();
    let plan = call(&mut coupling, 0).unwrap();
    assert_eq!(
        plan.args,
        [
            id(Quantity::Mass, 0),
            id(Quantity::Flow, 0),
            id(Quantity::Temperature, 0),
            id(Quantity::Mass, 1),
            id(Quantity::Flow, 1),
            id(Quantity::Temperature, 1),
        ]
    );
    assert_eq!(plan.extent, (3, 3, 3));
    assert_eq!(
        plan.readback,
        [
            id(Quantity::Mass, 1),
            id(Quantity::Flow, 1),
            id(Quantity::Temperature, 1),
        ]
    );
    assert!(!coupling.is_idle());
    assert_eq!(coupling.arguments(), plan.args);
    assert_eq!(coupling.ownership(0), Ownership::HostOwned);
    assert_eq!(coupling.ownership(1), Ownership::DeviceOwned);
}

#[test]
fn call_plans_an_odd_step() {
    let cells = vec![0u32; 8];
    let flow = vec![0u32; 24];
    let mut coupling = bind([&cells, &cells], [&flow, &flow], [&cells, &cells], (2, 2, 2)).unwrap();
    let plan = call(&mut coupling, 7).unwrap();
    assert_eq!(
        plan.args,
        [
            id(Quantity::Mass, 1),
            id(Quantity::Flow, 1),
            id(Quantity::Temperature, 1),
            id(Quantity::Mass, 0),
            id(Quantity::Flow, 0),
            id(Quantity::Temperature, 0),
        ]
    );
    assert_eq!(
        plan.readback,
        [
            id(Quantity::Mass, 0),
            id(Quantity::Flow, 0),
            id(Quantity::Temperature, 0),
        ]
    );
    assert_eq!(coupling.arguments(), plan.args);
    assert_eq!(coupling.ownership(0), Ownership::DeviceOwned);
    assert_eq!(coupling.ownership(1), Ownership::HostOwned);
    assert_eq!(coupling.ownership(2), Ownership::HostOwned);
}

#[test]
fn successive_steps_swap_the_arguments() {
    let cells = vec![0u32; 8];
    let flow = vec![0u32; 24];
    let mut coupling = bind([&cells, &cells], [&flow, &flow], [&cells, &cells], (2, 2, 2)).unwrap();
    for n in 0..6usize {
        let this = call(&mut coupling, n).unwrap();
        assert_eq!(coupling.release(), Some((n + 1) % 2));
        let following = call(&mut coupling, n + 1).unwrap();
        assert_eq!(coupling.release(), Some(n % 2));
        assert_eq!(this.args[0..3], following.args[3..6]);
        assert_eq!(this.args[3..6], following.args[0..3]);
    }
}

#[test]
fn call_waits_for_the_release() {
    let cells = vec![0u32; 8];
    let flow = vec![0u32; 24];
    let mut coupling = bind([&cells, &cells], [&flow, &flow], [&cells, &cells], (2, 2, 2)).unwrap();
    assert!(call(&mut coupling, 0).is_some());
    assert!(call(&mut coupling, 0).is_none());
    assert!(call(&mut coupling, 1).is_none());
    assert_eq!(coupling.ownership(1), Ownership::DeviceOwned);
    assert_eq!(coupling.release(), Some(1));
    assert!(coupling.is_idle());
    assert_eq!(coupling.release(), None);
    assert!(call(&mut coupling, 1).is_some());
    assert_eq!(coupling.ownership(0), Ownership::DeviceOwned);
}

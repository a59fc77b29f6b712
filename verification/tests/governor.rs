use grimnir::governor::Governor;

#[test]
fn permits_bound_in_flight_probes_by_the_pool() {
    // Batch of 10 tasks, pool of 3 permits: the in-flight high-water mark is
    // min(10, 3) = 3.
    let mut g = Governor::new(10, 3);
    g.launch_wave(10);
    let mut high_water: usize = 0;
    let mut done: usize = 0;
    while done < 10 {
        while g.can_acquire() {
            g.acquire();
            if g.holding > high_water {
                high_water = g.holding;
            }
        }
        assert!(g.holding <= 3);
        assert!(g.holding <= 10);
        g.release();
        done += 1;
    }
    assert!(g.wave_done());
    assert_eq!(high_water, 3);
}

#[test]
fn batch_bounds_in_flight_probes_below_the_pool() {
    // Batch of 2, pool of 5: only min(2, 5) = 2 probes ever run at once.
    let mut g = Governor::new(2, 5);
    g.launch_wave(2);
    let mut high_water: usize = 0;
    while g.can_acquire() {
        g.acquire();
        if g.holding > high_water {
            high_water = g.holding;
        }
    }
    assert_eq!(high_water, 2);
    g.release();
    g.release();
    assert!(g.wave_done());
}

#[test]
fn waves_are_strictly_sequential() {
    let mut g = Governor::new(4, 4);
    g.launch_wave(3);
    assert!(!g.wave_done());
    g.acquire();
    g.acquire();
    g.acquire();
    g.release();
    g.release();
    g.release();
    assert!(g.wave_done());
    // Only now may the next wave start.
    g.launch_wave(4);
    assert!(!g.wave_done());
}

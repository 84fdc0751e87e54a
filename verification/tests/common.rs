use imgthin::common::calculate_ap_and_bp;

fn ring(code: u32) -> [bool; 8] {
    let mut r = [false; 8];
    for (k, p) in r.iter_mut().enumerate() {
        *p = (code >> k) & 1 == 1;
    }
    r
}

fn numbers(r: [bool; 8]) -> (usize, usize) {
    calculate_ap_and_bp(r[0], r[1], r[2], r[3], r[4], r[5], r[6], r[7])
}

#[test]
fn test_calculate_ap_bp() {
    assert_eq!(
        calculate_ap_and_bp(true, true, true, true, true, true, true, true),
        (0, 8)
    );
    assert_eq!(
        calculate_ap_and_bp(true, true, false, false, true, false, true, true),
        (2, 5)
    );
    assert_eq!(
        calculate_ap_and_bp(false, false, false, false, false, false, false, false),
        (0, 0)
    );
}

#[test]
fn crossings_count_the_step_from_the_last_neighbour_to_the_first() {
    // Only p2 is foreground: the one step up is the one from p9 back to p2.
    assert_eq!(
        calculate_ap_and_bp(true, false, false, false, false, false, false, false),
        (1, 1)
    );
    // Only p9 is foreground.
    assert_eq!(
        calculate_ap_and_bp(false, false, false, false, false, false, false, true),
        (1, 1)
    );
    // A run over the seam, p9 and p2, is one run.
    assert_eq!(
        calculate_ap_and_bp(true, false, false, false, false, false, false, true),
        (1, 2)
    );
}

#[test]
fn alternating_ring_has_four_crossings() {
    assert_eq!(
        calculate_ap_and_bp(true, false, true, false, true, false, true, false),
        (4, 4)
    );
    assert_eq!(
        calculate_ap_and_bp(false, true, false, true, false, true, false, true),
        (4, 4)
    );
}

#[test]
fn numbers_of_every_ring() {
    for code in 0..256u32 {
        let r = ring(code);
        let count = r.iter().filter(|p| **p).count();
        let mut runs = 0;
        for k in 0..8 {
            if !r[k] && r[(k + 1) % 8] {
                runs += 1;
            }
        }
        assert_eq!(numbers(r), (runs, count));
    }
}

#[test]
fn numbers_do_not_change_when_the_ring_is_turned() {
    for code in 0..256u32 {
        let r = ring(code);
        let mut turned = [false; 8];
        for k in 0..8 {
            turned[(k + 1) % 8] = r[k];
        }
        assert_eq!(numbers(r), numbers(turned));
    }
}

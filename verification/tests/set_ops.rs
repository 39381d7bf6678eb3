use descriptor_sets::CPU_SETSIZE;
use descriptor_sets::FD_SETSIZE;
use descriptor_sets::cpu::CPU_ALLOC_SIZE;
use descriptor_sets::cpu::CPU_CLR;
use descriptor_sets::cpu::CPU_COUNT;
use descriptor_sets::cpu::CPU_COUNT_S;
use descriptor_sets::cpu::CPU_EQUAL;
use descriptor_sets::cpu::CPU_ISSET;
use descriptor_sets::cpu::CPU_SET;
use descriptor_sets::cpu::CPU_ZERO;
use descriptor_sets::cpu::cpu_set_t;
use descriptor_sets::fd::FD_CLR;
use descriptor_sets::fd::FD_ISSET;
use descriptor_sets::fd::FD_SET;
use descriptor_sets::fd::FD_ZERO;
use descriptor_sets::fd::OutOfRange;
use descriptor_sets::fd::fd_set;

fn fd_members(s: &fd_set) -> Vec<i32> {
    let mut v = Vec::new();
    for fd in 0..FD_SETSIZE as i32 {
        if FD_ISSET(fd, s) == Ok(true) {
            v.push(fd);
        }
    }
    v
}

fn cpu_members(s: &cpu_set_t) -> Vec<usize> {
    let mut v = Vec::new();
    for cpu in 0..CPU_SETSIZE as usize {
        if CPU_ISSET(cpu, s) {
            v.push(cpu);
        }
    }
    v
}

#[test]
fn fd_empty_has_no_members() {
    let s = fd_set::new();
    for fd in 0..FD_SETSIZE as i32 {
        assert_eq!(FD_ISSET(fd, &s), Ok(false));
    }
}

#[test]
fn fd_set_marks_only_that_slot() {
    let mut s = fd_set::new();
    assert_eq!(FD_SET(3, &mut s), Ok(()));
    assert_eq!(FD_ISSET(3, &s), Ok(true));
    for fd in 0..FD_SETSIZE as i32 {
        if fd != 3 {
            assert_eq!(FD_ISSET(fd, &s), Ok(false));
        }
    }
}

#[test]
fn fd_clear_restores() {
    let mut s = fd_set::new();
    assert_eq!(FD_SET(10, &mut s), Ok(()));
    assert_eq!(FD_SET(11, &mut s), Ok(()));
    assert_eq!(FD_CLR(10, &mut s), Ok(()));
    assert_eq!(FD_ISSET(10, &s), Ok(false));
    assert_eq!(FD_ISSET(11, &s), Ok(true));
    assert_eq!(fd_members(&s), vec![11]);
}

#[test]
fn fd_set_idempotent() {
    let mut once = fd_set::new();
    let mut twice = fd_set::new();
    assert_eq!(FD_SET(700, &mut once), Ok(()));
    assert_eq!(FD_SET(700, &mut twice), Ok(()));
    assert_eq!(FD_SET(700, &mut twice), Ok(()));
    for fd in 0..FD_SETSIZE as i32 {
        assert_eq!(FD_ISSET(fd, &once), FD_ISSET(fd, &twice));
    }
}

#[test]
fn fd_out_of_range_reports_error() {
    let mut s = fd_set::new();
    assert_eq!(FD_SET(2, &mut s), Ok(()));
    assert_eq!(FD_SET(FD_SETSIZE as i32, &mut s), Err(OutOfRange));
    assert_eq!(FD_SET(-1, &mut s), Err(OutOfRange));
    assert_eq!(FD_CLR(2000, &mut s), Err(OutOfRange));
    assert_eq!(FD_CLR(i32::MIN, &mut s), Err(OutOfRange));
    assert_eq!(FD_ISSET(FD_SETSIZE as i32, &s), Err(OutOfRange));
    assert_eq!(FD_ISSET(-5, &s), Err(OutOfRange));
    // the failed calls left the set untouched
    assert_eq!(fd_members(&s), vec![2]);
}

#[test]
fn fd_zero_empties() {
    let mut s = fd_set::new();
    assert_eq!(FD_SET(0, &mut s), Ok(()));
    assert_eq!(FD_SET(1023, &mut s), Ok(()));
    FD_ZERO(&mut s);
    assert_eq!(fd_members(&s), Vec::<i32>::new());
}

#[test]
fn fd_word_boundary_rollover() {
    let mut s = fd_set::new();
    assert_eq!(FD_SET(63, &mut s), Ok(()));
    assert_eq!(FD_ISSET(63, &s), Ok(true));
    assert_eq!(FD_ISSET(64, &s), Ok(false));
    assert_eq!(FD_SET(64, &mut s), Ok(()));
    assert_eq!(FD_ISSET(63, &s), Ok(true));
    assert_eq!(FD_ISSET(64, &s), Ok(true));
    assert_eq!(FD_CLR(63, &mut s), Ok(()));
    assert_eq!(FD_ISSET(63, &s), Ok(false));
    assert_eq!(FD_ISSET(64, &s), Ok(true));
}

#[test]
fn cpu_empty_has_no_members() {
    let s = cpu_set_t::new();
    for cpu in 0..CPU_SETSIZE as usize {
        assert!(!CPU_ISSET(cpu, &s));
    }
    assert_eq!(CPU_COUNT(&s), 0);
}

#[test]
fn cpu_set_marks_only_that_slot() {
    let mut s = cpu_set_t::new();
    CPU_SET(5, &mut s);
    assert!(CPU_ISSET(5, &s));
    for cpu in 0..CPU_SETSIZE as usize {
        if cpu != 5 {
            assert!(!CPU_ISSET(cpu, &s));
        }
    }
}

#[test]
fn cpu_clear_restores() {
    let mut s = cpu_set_t::new();
    CPU_SET(100, &mut s);
    CPU_SET(101, &mut s);
    CPU_CLR(100, &mut s);
    assert!(!CPU_ISSET(100, &s));
    assert!(CPU_ISSET(101, &s));
    assert_eq!(cpu_members(&s), vec![101]);
}

#[test]
fn cpu_set_idempotent() {
    let mut once = cpu_set_t::new();
    let mut twice = cpu_set_t::new();
    CPU_SET(900, &mut once);
    CPU_SET(900, &mut twice);
    CPU_SET(900, &mut twice);
    assert!(CPU_EQUAL(&once, &twice));
}

#[test]
fn cpu_count_counts_distinct_slots() {
    let mut s = cpu_set_t::new();
    let slots = [0usize, 1, 7, 63, 64, 65, 512, 1023];
    for (k, &slot) in slots.iter().enumerate() {
        assert_eq!(CPU_COUNT(&s), k as i32);
        CPU_SET(slot, &mut s);
    }
    assert_eq!(CPU_COUNT(&s), slots.len() as i32);
    // setting a slot that is already a member does not change the count
    CPU_SET(7, &mut s);
    assert_eq!(CPU_COUNT(&s), slots.len() as i32);
}

#[test]
fn cpu_out_of_range_is_noop() {
    let mut s = cpu_set_t::new();
    CPU_SET(1, &mut s);
    let copy = s;
    CPU_SET(CPU_SETSIZE as usize, &mut s);
    CPU_SET(usize::MAX, &mut s);
    CPU_CLR(CPU_SETSIZE as usize, &mut s);
    assert!(CPU_EQUAL(&s, &copy));
    assert!(!CPU_ISSET(CPU_SETSIZE as usize, &s));
    assert!(!CPU_ISSET(usize::MAX, &s));
}

#[test]
fn cpu_word_boundary_rollover() {
    let mut s = cpu_set_t::new();
    CPU_SET(63, &mut s);
    assert!(CPU_ISSET(63, &s));
    assert!(!CPU_ISSET(64, &s));
    CPU_SET(64, &mut s);
    assert!(CPU_ISSET(63, &s));
    assert!(CPU_ISSET(64, &s));
    CPU_CLR(63, &mut s);
    assert!(!CPU_ISSET(63, &s));
    assert!(CPU_ISSET(64, &s));
}

#[test]
fn cpu_zero_empties() {
    let mut s = cpu_set_t::new();
    CPU_SET(0, &mut s);
    CPU_SET(1023, &mut s);
    CPU_ZERO(&mut s);
    assert_eq!(CPU_COUNT(&s), 0);
    assert!(CPU_EQUAL(&s, &cpu_set_t::new()));
}

#[test]
fn cpu_alloc_size_rounds_to_bytes() {
    assert_eq!(CPU_ALLOC_SIZE(0), 0);
    assert_eq!(CPU_ALLOC_SIZE(1), 1);
    assert_eq!(CPU_ALLOC_SIZE(8), 1);
    assert_eq!(CPU_ALLOC_SIZE(9), 2);
    assert_eq!(CPU_ALLOC_SIZE(CPU_SETSIZE), 128);
}

#[test]
fn cpu_count_s_sub_sized_views() {
    let mut s = cpu_set_t::new();
    CPU_SET(0, &mut s);
    CPU_SET(64, &mut s);
    CPU_SET(500, &mut s);
    assert_eq!(CPU_COUNT_S(0, &s), 0);
    assert_eq!(CPU_COUNT_S(8, &s), 1);
    // a size that is not a whole number of words scans the whole words in it
    assert_eq!(CPU_COUNT_S(15, &s), 1);
    assert_eq!(CPU_COUNT_S(16, &s), 2);
    assert_eq!(CPU_COUNT_S(128, &s), 3);
}

#[test]
fn cpu_equal_detects_any_word() {
    let mut a = cpu_set_t::new();
    let mut b = cpu_set_t::new();
    CPU_SET(4, &mut a);
    CPU_SET(4, &mut b);
    assert!(CPU_EQUAL(&a, &b));
    CPU_SET(1023, &mut b);
    assert!(!CPU_EQUAL(&a, &b));
}

#[test]
fn cpu_scenario_full() {
    let mut s = cpu_set_t::new();
    CPU_ZERO(&mut s);
    CPU_SET(0, &mut s);
    CPU_SET(63, &mut s);
    CPU_SET(64, &mut s);
    CPU_SET(1023, &mut s);
    assert_eq!(CPU_COUNT(&s), 4);
    assert_eq!(cpu_members(&s), vec![0, 63, 64, 1023]);

    let mut copy = cpu_set_t::new();
    CPU_SET(0, &mut copy);
    CPU_SET(63, &mut copy);
    CPU_SET(64, &mut copy);
    CPU_SET(1023, &mut copy);
    assert!(CPU_EQUAL(&s, &copy));

    // one extra member, or one member short, breaks equality
    let mut extra = copy;
    CPU_SET(1, &mut extra);
    assert!(!CPU_EQUAL(&s, &extra));
    let mut short = copy;
    CPU_CLR(64, &mut short);
    assert!(!CPU_EQUAL(&s, &short));
}

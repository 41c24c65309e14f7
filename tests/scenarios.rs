use insight::{
    add_log_entry, alloc_action, capture_trace, dump_alloc, forbid, frames_oldest_first,
    join_names, keep_symbol_name, no_log, record_alloc, symbolize, trace_names, AllocAction,
    AllocError, AllocFlags, AllocImpl, AllocLog, EventLog, Guard, Layout, ALLOC_LOG_SIZE,
};

fn layout(size: usize) -> Layout {
    Layout { size, align: 8 }
}

fn ready_log() -> EventLog {
    let mut log = EventLog::new();
    log.ensure_init();
    log
}

#[test]
fn tracker_macro() {
    println!("Test 1");
}

#[test]
fn initial_flags_are_disabled_only() {
    let m = AllocFlags::initial();
    assert!(m.disabled && !m.enabled && !m.forbidden);
    assert!(m.contains(AllocFlags::log_disabled()));
    assert!(!m.contains(AllocFlags::log_enabled()));
}

#[test]
fn flags_insert_and_remove() {
    let mut m = AllocFlags::empty();
    m.insert(AllocFlags::log_enabled());
    m.insert(AllocFlags::forbid());
    assert!(m.enabled && m.forbidden && !m.disabled);
    m.remove(AllocFlags::forbid());
    assert_eq!(m, AllocFlags::log_enabled());
    let both = AllocFlags::log_enabled().union(AllocFlags::forbid());
    assert!(both.contains(AllocFlags::forbid()) && both.contains(AllocFlags::log_enabled()));
}

#[test]
fn guard_removes_its_bit() {
    let mut m = AllocFlags::log_enabled();
    let g = Guard::new(&mut m, AllocFlags::forbid());
    assert!(m.forbidden && m.enabled);
    g.release(&mut m);
    assert_eq!(m, AllocFlags::log_enabled());
}

#[test]
fn nested_guards_do_not_count() {
    let mut m = AllocFlags::empty();
    let outer = Guard::new(&mut m, AllocFlags::forbid());
    let inner = Guard::new(&mut m, AllocFlags::forbid());
    inner.release(&mut m);
    assert!(!m.forbidden);
    outer.release(&mut m);
    assert!(!m.forbidden);
}

#[test]
fn no_log_suppresses_inside_and_clears_after() {
    let mut m = AllocFlags::log_enabled();
    let r = no_log(&mut m, |inside: AllocFlags| {
        assert!(inside.disabled && inside.enabled);
        (7u32, inside)
    });
    assert_eq!(r, 7);
    assert_eq!(m, AllocFlags::log_enabled());
}

#[test]
fn no_log_clears_a_bit_set_before() {
    let mut m = AllocFlags::initial();
    let r = no_log(&mut m, |inside: AllocFlags| (inside.disabled, inside));
    assert!(r);
    assert!(!m.disabled);
}

#[test]
fn forbid_sets_and_clears() {
    let mut m = AllocFlags::empty();
    let seen = forbid(&mut m, |inside: AllocFlags| (inside.forbidden, inside));
    assert!(seen);
    assert!(!m.forbidden);
}

#[test]
fn nested_no_log_inner_exit_clears_outer_bit() {
    let mut m = AllocFlags::empty();
    let inner_after = no_log(&mut m, |outer_inside: AllocFlags| {
        let mut cur = outer_inside;
        no_log(&mut cur, |inner_inside: AllocFlags| ((), inner_inside));
        (cur.disabled, cur)
    });
    assert!(!inner_after);
    assert!(!m.disabled);
}

#[test]
fn action_of_each_mode() {
    assert_eq!(alloc_action(AllocFlags::forbid()), AllocAction::Forbidden);
    let all = AllocFlags::log_enabled().union(AllocFlags::forbid());
    assert_eq!(alloc_action(all), AllocAction::Forbidden);
    assert_eq!(alloc_action(AllocFlags::log_enabled()), AllocAction::Record);
    let suppressed = AllocFlags::log_enabled().union(AllocFlags::log_disabled());
    assert_eq!(alloc_action(suppressed), AllocAction::Pass);
    assert_eq!(alloc_action(AllocFlags::empty()), AllocAction::Pass);
    assert_eq!(alloc_action(AllocFlags::initial()), AllocAction::Pass);
}

#[test]
fn alloc_log_default_is_empty() {
    assert_eq!(AllocLog::default(), AllocLog::Empty);
}

#[test]
fn alloc_impl_keeps_inner() {
    let a = AllocImpl::new(42u8);
    assert_eq!(*a.inner(), 42);
}

#[test]
fn fresh_log_is_not_ready() {
    let log = EventLog::new();
    assert!(!log.is_initialized());
    assert!(!log.can_push());
    let ready = ready_log();
    assert!(ready.is_initialized());
    assert!(ready.can_push());
}

#[test]
fn init_happens_once() {
    let mut log = ready_log();
    add_log_entry(&mut log, AllocLog::Alloc(layout(1)));
    log.ensure_init();
    assert_eq!(log.take_all(), vec![AllocLog::Alloc(layout(1))]);
}

#[test]
fn events_come_out_in_push_order() {
    let mut log = ready_log();
    let a = AllocLog::Alloc(layout(8));
    let b = AllocLog::Test(layout(16), vec![Some(1), None, Some(3)]);
    let c = AllocLog::Empty;
    add_log_entry(&mut log, a.clone());
    add_log_entry(&mut log, b.clone());
    add_log_entry(&mut log, c.clone());
    assert_eq!(log.take_all(), vec![a, b, c]);
    assert_eq!(log.take_all(), Vec::new());
}

#[test]
fn push_into_full_queue_fails() {
    let mut log = ready_log();
    for i in 0..ALLOC_LOG_SIZE {
        assert!(log.can_push());
        add_log_entry(&mut log, AllocLog::Alloc(layout(i)));
    }
    assert!(!log.can_push());
    let mut m = AllocFlags::log_enabled();
    assert_eq!(record_alloc(&mut m, &mut log, layout(4096)), Err(AllocError::QueueFull));
    let all = log.take_all();
    assert_eq!(all.len(), 4096);
    assert_eq!(all[4095], AllocLog::Alloc(layout(4095)));
}

#[test]
fn forbidden_allocation_fails() {
    let mut log = EventLog::new();
    let mut m = AllocFlags::empty();
    let r = forbid(&mut m, |inside: AllocFlags| {
        let mut cur = inside;
        (record_alloc(&mut cur, &mut log, layout(8)), cur)
    });
    assert_eq!(r, Err(AllocError::Forbidden));
    assert!(!m.forbidden);
    assert_eq!(log.take_all(), Vec::new());
}

#[test]
fn allocation_without_enabled_records_nothing() {
    let mut log = EventLog::new();
    let mut m = AllocFlags::initial();
    assert_eq!(record_alloc(&mut m, &mut log, layout(8)), Ok(()));
    let mut e = AllocFlags::log_enabled().union(AllocFlags::log_disabled());
    assert_eq!(record_alloc(&mut e, &mut log, layout(16)), Ok(()));
    assert_eq!(log.take_all(), Vec::new());
}

#[test]
fn enabled_allocations_are_dumped_in_order() {
    let mut log = EventLog::new();
    let mut m = AllocFlags::empty();
    let g = Guard::new(&mut m, AllocFlags::log_enabled());
    for size in [8usize, 16, 32] {
        assert_eq!(record_alloc(&mut m, &mut log, layout(size)), Ok(()));
    }
    g.release(&mut m);
    assert_eq!(m, AllocFlags::empty());
    let lines = dump_alloc(&mut m, &mut log);
    assert_eq!(lines.len(), 3);
    let sizes: Vec<usize> = lines.iter().map(|l| l.layout.size).collect();
    assert_eq!(sizes, vec![8, 16, 32]);
    for line in &lines {
        assert!(!line.names.is_empty());
        for n in &line.names {
            assert!(!n.contains("backtrace") && !n.contains("GlobalAlloc") && !n.contains("insight"));
        }
    }
    assert!(dump_alloc(&mut m, &mut log).is_empty());
}

#[test]
fn full_queue_fails_allocation() {
    let mut log = ready_log();
    for i in 0..ALLOC_LOG_SIZE {
        add_log_entry(&mut log, AllocLog::Alloc(layout(i)));
    }
    let mut m = AllocFlags::log_enabled();
    assert_eq!(record_alloc(&mut m, &mut log, layout(8)), Err(AllocError::QueueFull));
    assert_eq!(m, AllocFlags::log_enabled());
}

#[test]
fn dump_skips_non_trace_events_and_clears_disabled() {
    let mut log = ready_log();
    add_log_entry(&mut log, AllocLog::Alloc(layout(8)));
    add_log_entry(&mut log, AllocLog::Empty);
    add_log_entry(&mut log, AllocLog::Test(layout(24), vec![None]));
    let mut m = AllocFlags::initial();
    let lines = dump_alloc(&mut m, &mut log);
    assert_eq!(lines.len(), 1);
    assert_eq!(lines[0].layout, layout(24));
    assert!(lines[0].names.is_empty());
    assert!(!m.disabled);
}

#[test]
fn dump_of_empty_queue_gives_no_line() {
    let mut log = ready_log();
    let mut m = AllocFlags::empty();
    assert!(dump_alloc(&mut m, &mut log).is_empty());
}

#[test]
fn recorded_event_holds_the_walked_frames() {
    let mut log = ready_log();
    let mut m = AllocFlags::log_enabled();
    assert_eq!(record_alloc(&mut m, &mut log, layout(8)), Ok(()));
    let all = log.take_all();
    assert_eq!(all.len(), 1);
    match &all[0] {
        AllocLog::Test(l, bt) => {
            assert_eq!(*l, layout(8));
            assert!(bt.iter().any(|a| a.is_some()));
        }
        other => panic!("unexpected event {:?}", other),
    }
}

#[test]
fn frames_are_turned_oldest_first() {
    assert_eq!(frames_oldest_first(&vec![10, 0, 30]), vec![Some(30), None, Some(10)]);
    assert_eq!(frames_oldest_first(&Vec::new()), Vec::new());
}

#[test]
fn joined_names_keep_resolution_order() {
    let res = vec![
        vec![Some("a::one".to_string()), Some("insight::x".to_string())],
        vec![],
        vec![None, Some("b::two".to_string()), Some("c::GlobalAlloc".to_string())],
        vec![Some("d::three".to_string())],
    ];
    assert_eq!(
        join_names(&res),
        vec!["a::one".to_string(), "b::two".to_string(), "d::three".to_string()]
    );
    assert!(join_names(&Vec::new()).is_empty());
}

#[test]
fn internal_names_are_filtered() {
    assert!(keep_symbol_name("std::rt::lang_start"));
    assert!(keep_symbol_name(""));
    assert!(!keep_symbol_name("backtrace::backtrace::trace"));
    assert!(!keep_symbol_name("<A as core::alloc::global::GlobalAlloc>::alloc"));
    assert!(!keep_symbol_name("insight::record_alloc"));
    assert!(!keep_symbol_name("xinsightx"));
    assert!(keep_symbol_name("insigh"));
}

#[test]
fn trace_names_keeps_order_and_drops() {
    let syms = vec![
        Some("main".to_string()),
        None,
        Some("backtrace::resolve".to_string()),
        Some("app::run".to_string()),
        Some("insight::dump_alloc".to_string()),
    ];
    assert_eq!(trace_names(&syms), vec!["main".to_string(), "app::run".to_string()]);
    assert!(trace_names(&Vec::new()).is_empty());
}

#[test]
fn captured_trace_resolves_to_names() {
    let t = capture_trace();
    assert!(!t.is_empty());
    assert!(t.iter().any(|a| a.is_some()));
    let names = symbolize(&t);
    assert!(!names.is_empty());
    assert!(names.iter().all(|n| keep_symbol_name(n)));
    assert!(symbolize(&vec![None, None]).is_empty());
}

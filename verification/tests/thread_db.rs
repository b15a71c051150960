use libthread_db::thread_db::{
    thr_iter_callback, thread_kind, TdThrEvents, TdThrFilter, TdThrHandle, TdThrState, TdThrType,
};
use libthread_db::{TdErr, TdTaStats, TdThrInfo};

#[test]
fn engine_codes_round_trip() {
    let all = [
        TdErr::Success,
        TdErr::Failure,
        TdErr::NoThr,
        TdErr::NoSv,
        TdErr::NoLWP,
        TdErr::BadPH,
        TdErr::BadTH,
        TdErr::BadSH,
        TdErr::BadTA,
        TdErr::BadKEY,
        TdErr::NoMsg,
        TdErr::NoFPRegs,
        TdErr::NoLibthread,
        TdErr::NoEvent,
        TdErr::NoCapab,
        TdErr::DbErr,
        TdErr::NoAplic,
        TdErr::NoTSD,
        TdErr::Malloc,
        TdErr::PartialReg,
        TdErr::NoXregs,
        TdErr::TLSDefer,
        TdErr::NoTalloc,
        TdErr::Version,
        TdErr::NoTLS,
    ];
    for (number, code) in all.iter().enumerate() {
        assert_eq!(code.code(), number as i32);
        assert_eq!(TdErr::from_code(number as i32), Some(*code));
    }
    assert_eq!(TdErr::from_code(-1), None);
    assert_eq!(TdErr::from_code(25), None);
    assert_eq!(TdErr::from_code(i32::MAX), None);
}

#[test]
fn engine_code_as_result() {
    assert_eq!(TdErr::Success.into_result(), Ok(()));
    assert_eq!(TdErr::Failure.into_result(), Err(TdErr::Failure));
    assert_eq!(TdErr::NoCapab.into_result(), Err(TdErr::NoCapab));
    assert_eq!(TdErr::NoTLS.into_result(), Err(TdErr::NoTLS));
}

#[test]
fn thread_state_codes() {
    let all = [
        TdThrState::AnyState,
        TdThrState::Unknown,
        TdThrState::Stopped,
        TdThrState::Run,
        TdThrState::Active,
        TdThrState::Zombie,
        TdThrState::Sleep,
        TdThrState::StoppedAsleep,
    ];
    for (number, state) in all.iter().enumerate() {
        assert_eq!(state.code(), number as i32);
        assert_eq!(TdThrState::from_code(number as i32), Some(*state));
    }
    assert_eq!(TdThrState::from_code(8), None);
    assert_eq!(TdThrState::from_code(-1), None);
}

#[test]
fn thread_type_codes() {
    let all = [TdThrType::AnyType, TdThrType::User, TdThrType::System];
    for (number, kind) in all.iter().enumerate() {
        assert_eq!(kind.code(), number as i32);
        assert_eq!(TdThrType::from_code(number as i32), Some(*kind));
    }
    assert_eq!(TdThrType::from_code(3), None);
    assert_eq!(TdThrType::from_code(-1), None);
}

#[test]
fn statistics_start_at_zero() {
    let stats: TdTaStats = Default::default();
    assert_eq!(stats.nthreads, 0);
    assert_eq!(stats.r_concurrency, 0);
    assert_eq!(stats.nrunnable_num, 0);
    assert_eq!(stats.nrunnable_den, 0);
    assert_eq!(stats.a_concurrency_num, 0);
    assert_eq!(stats.a_concurrency_den, 0);
    assert_eq!(stats.nlwps_num, 0);
    assert_eq!(stats.nlwps_den, 0);
    assert_eq!(stats.nidle_num, 0);
    assert_eq!(stats.nidle_den, 0);
}

#[test]
fn handles_carry_their_words() {
    let handle = TdThrHandle::new(0x5555_0000, 0x7fff_1234);
    assert_eq!(handle.agent_word(), 0x5555_0000);
    assert_eq!(handle.unique_word(), 0x7fff_1234);
    let copy = handle;
    assert_eq!(copy, handle);
}

#[test]
fn iteration_collects_in_order() {
    let mut threads: Vec<TdThrHandle> = Vec::new();
    for k in 0..5usize {
        assert_eq!(thr_iter_callback(TdThrHandle::new(1, 100 + k), &mut threads), 0);
    }
    assert_eq!(threads.len(), 5);
    for (k, handle) in threads.iter().enumerate() {
        assert_eq!(handle.unique_word(), 100 + k);
    }
}

#[test]
fn iteration_filter_lets_every_thread_through() {
    let filter = TdThrFilter::every_thread();
    assert_eq!(filter.state, TdThrState::AnyState);
    assert_eq!(filter.min_priority, 0);
    assert_eq!(filter.user_flags, 0);
}

#[test]
fn events_keep_their_bits() {
    let events = TdThrEvents::new([0x8000_0001, 0x10]);
    assert_eq!(events.bits(), [0x8000_0001, 0x10]);
}

#[test]
fn thread_info_holds_what_the_engine_reported() {
    let info = TdThrInfo {
        ti_tid: 0x7f00_dead_b000,
        ti_tls: 0,
        ti_startfunc: 0x40_1000,
        ti_stkbase: 0x7f00_0000_0000,
        ti_stksize: 0x80_0000,
        ti_state: TdThrState::Active,
        ti_db_suspended: 0,
        ti_type: TdThrType::User,
        ti_pri: 0,
        ti_lid: 4242,
        ti_sigmask: [0; 16],
        ti_traceme: 0,
        ti_pending: [0; 16],
        ti_events: TdThrEvents::new([0, 0]),
    };
    assert_eq!(info.ti_state, TdThrState::Active);
    assert_eq!(info.ti_type.code(), 1);
    assert_eq!(info.ti_lid, 4242);
    let text = format!("{:?}", info);
    assert!(text.contains("4242"));
}

#[test]
fn raw_codes_outside_the_list_are_plain_failures() {
    assert_eq!(TdErr::from_raw(0), TdErr::Success);
    assert_eq!(TdErr::from_raw(14), TdErr::NoCapab);
    assert_eq!(TdErr::from_raw(24), TdErr::NoTLS);
    assert_eq!(TdErr::from_raw(25), TdErr::Failure);
    assert_eq!(TdErr::from_raw(-7), TdErr::Failure);
}

#[test]
fn thread_kind_from_numbers() {
    assert_eq!(thread_kind(4, 1), Ok((TdThrState::Active, TdThrType::User)));
    assert_eq!(thread_kind(0, 0), Ok((TdThrState::AnyState, TdThrType::AnyType)));
    assert_eq!(thread_kind(7, 2), Ok((TdThrState::StoppedAsleep, TdThrType::System)));
    assert_eq!(thread_kind(8, 1), Err(TdErr::DbErr));
    assert_eq!(thread_kind(4, 3), Err(TdErr::DbErr));
    assert_eq!(thread_kind(-1, -1), Err(TdErr::DbErr));
}

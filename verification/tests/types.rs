use tchat::types::{
    IdInterner, InternedId, MessageId, PlatformId, SpaceId, Timestamp, TopicId, UserId,
};

#[test]
fn intern_returns_same_id_for_same_string() {
    let mut interner = IdInterner::new();
    let a = interner.intern("spaces/abc123");
    let b = interner.intern("spaces/abc123");
    assert_eq!(a, b);
    assert_eq!(interner.len(), 1);
}

#[test]
fn intern_returns_different_id_for_different_strings() {
    let mut interner = IdInterner::new();
    let a = interner.intern("spaces/abc");
    let b = interner.intern("spaces/def");
    assert_ne!(a, b);
    assert_eq!(interner.len(), 2);
}

#[test]
fn resolve_returns_original_string() {
    let mut interner = IdInterner::new();
    let id = interner.intern("hello world");
    assert_eq!(interner.resolve(id), Some("hello world"));
}

#[test]
fn resolve_unknown_id_returns_none() {
    let interner = IdInterner::new();
    let mut other = IdInterner::new();
    let mut last = other.intern("0");
    for n in 1..1000 {
        last = other.intern(&n.to_string());
    }
    assert_eq!(other.len(), 1000);
    assert_eq!(interner.resolve(last), None);
}

#[test]
fn space_id_is_copy() {
    fn assert_copy<T: Copy>() {}
    assert_copy::<SpaceId>();
    assert_copy::<MessageId>();
    assert_copy::<UserId>();
    assert_copy::<TopicId>();
    assert_copy::<PlatformId>();
    assert_copy::<InternedId>();
}

#[test]
fn space_id_ord_groups_by_platform_then_id() {
    let mut interner = IdInterner::new();
    let id_a = interner.intern("aaa");
    let id_b = interner.intern("bbb");

    let gc_a = SpaceId {
        platform: PlatformId::GoogleChat,
        id: id_a,
    };
    let gc_b = SpaceId {
        platform: PlatformId::GoogleChat,
        id: id_b,
    };
    let sl_a = SpaceId {
        platform: PlatformId::Slack,
        id: id_a,
    };

    // GoogleChat < Slack (enum variant order)
    assert!(gc_a < sl_a);
    // Within same platform, ordered by InternedId
    assert!(gc_a < gc_b);
}

#[test]
fn interned_id_min_max_are_distinct() {
    assert_ne!(InternedId::first(), InternedId::last());
    assert!(InternedId::first() < InternedId::last());
}

#[test]
fn from_secs_roundtrips() {
    let ts = Timestamp::from_secs(1_700_000_000);
    assert_eq!(ts.as_secs(), 1_700_000_000);
}

#[test]
fn from_millis_roundtrips() {
    let ts = Timestamp::from_millis(1_700_000_000_000);
    assert_eq!(ts.as_millis(), 1_700_000_000_000);
    assert_eq!(ts.as_secs(), 1_700_000_000);
}

#[test]
fn ordering_is_chronological() {
    let earlier = Timestamp(100);
    let later = Timestamp(200);
    assert!(earlier < later);
}

#[test]
fn timestamp_is_copy() {
    fn assert_copy<T: Copy>() {}
    assert_copy::<Timestamp>();
}

#[test]
fn display_formats_as_hh_mm() {
    // 10:30 UTC = 10*3600 + 30*60 = 37800 seconds
    let ts = Timestamp::from_secs(37800);
    assert_eq!(ts.time_of_day(), "10:30");
}

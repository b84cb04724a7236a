use error_aggregator::fields::{
    blank_field, channel_type, notification_fields, occurrence_footer, render_value, ChannelKind,
};
use error_aggregator::identity::{hash, identity_of, IDENTITY_LEN};
use error_aggregator::report::{begin_report, settle_first_sighting, FirstStep};
use error_aggregator::store::{RecordStore, StoreError};

fn hex(bytes: &[u8]) -> String {
    bytes.iter().map(|b| format!("{:02x}", b)).collect()
}

/// Runs one whole report against the store, with `sink` standing for the
/// notification channel: created references are pushed, deleted ones removed.
fn report(store: &mut RecordStore, sink: &mut Vec<u64>, next_ref: &mut u64, text: &str) -> u64 {
    match begin_report(store, text).unwrap() {
        FirstStep::Repeat { notification_ref, occurrences } => {
            assert!(sink.contains(&notification_ref));
            occurrences
        }
        FirstStep::FirstSighting { identity } => {
            let candidate = *next_ref;
            *next_ref += 1;
            sink.push(candidate);
            if let Some(dup) = settle_first_sighting(store, &identity, text, candidate).unwrap() {
                sink.retain(|r| *r != dup);
            }
            store.get(&identity).unwrap().occurrence_count
        }
    }
}

#[test]
fn hash_is_sha256() {
    assert_eq!(
        hex(&hash(b"abc")),
        "ba7816bf8f01cfea414140de5dae2223b00361a396177a9cb410ff61f20015ad"
    );
    assert_eq!(
        hex(&hash(b"")),
        "e3b0c44298fc1c149afbf4c8996fb92427ae41e4649b934ca495991b7852b855"
    );
}

#[test]
fn hash_is_deterministic_and_fixed_length() {
    let long = "x".repeat(10_000);
    let inputs = ["", "a", "b", "panic: nil deref at X", "panic: nil deref at Y", long.as_str()];
    for x in inputs.iter() {
        assert_eq!(identity_of(x), identity_of(x));
        assert_eq!(identity_of(x), hash(x.as_bytes()));
        assert_eq!(identity_of(x).len(), IDENTITY_LEN);
    }
    for (i, x) in inputs.iter().enumerate() {
        for (j, y) in inputs.iter().enumerate() {
            if i != j {
                assert_ne!(identity_of(x), identity_of(y));
            }
        }
    }
}

#[test]
fn first_sighting_creates_one_record() {
    let mut store = RecordStore::new();
    let mut sink = Vec::new();
    let mut next = 100;
    assert_eq!(report(&mut store, &mut sink, &mut next, "boom"), 1);
    assert_eq!(store.len(), 1);
    assert_eq!(sink, vec![100]);
    let rec = store.get(&identity_of("boom")).unwrap();
    assert_eq!(rec.occurrence_count, 1);
    assert_eq!(rec.notification_ref, 100);
    assert_eq!(rec.diagnostic_text, "boom");
}

#[test]
fn repeat_sightings_increment() {
    let mut store = RecordStore::new();
    let mut sink = Vec::new();
    let mut next = 1;
    for n in 1..=10u64 {
        assert_eq!(report(&mut store, &mut sink, &mut next, "same failure"), n);
    }
    assert_eq!(store.len(), 1);
    assert_eq!(sink, vec![1]);
    assert_eq!(store.get(&identity_of("same failure")).unwrap().occurrence_count, 10);
}

#[test]
fn concurrent_first_sightings_keep_one() {
    let mut store = RecordStore::new();
    let text = "race";
    let m = 5u64;
    // every caller probes before any settles
    let mut identities = Vec::new();
    for _ in 0..m {
        match begin_report(&mut store, text).unwrap() {
            FirstStep::FirstSighting { identity } => identities.push(identity),
            other => panic!("unexpected {:?}", other),
        }
    }
    let mut sink: Vec<u64> = (1..=m).collect();
    let mut deletes = Vec::new();
    for (k, identity) in identities.iter().enumerate() {
        let candidate = k as u64 + 1;
        if let Some(dup) = settle_first_sighting(&mut store, identity, text, candidate).unwrap() {
            assert_eq!(dup, candidate);
            deletes.push(dup);
            sink.retain(|r| *r != dup);
        }
    }
    assert_eq!(deletes, vec![2, 3, 4, 5]);
    assert_eq!(sink, vec![1]);
    assert_eq!(store.len(), 1);
    let rec = store.get(&identity_of(text)).unwrap();
    assert_eq!(rec.occurrence_count, m);
    assert_eq!(rec.notification_ref, 1);
}

#[test]
fn identities_are_independent() {
    let mut store = RecordStore::new();
    let mut sink = Vec::new();
    let mut next = 10;
    assert_eq!(report(&mut store, &mut sink, &mut next, "first"), 1);
    assert_eq!(report(&mut store, &mut sink, &mut next, "second"), 1);
    assert_eq!(report(&mut store, &mut sink, &mut next, "second"), 2);
    assert_eq!(report(&mut store, &mut sink, &mut next, "second"), 3);
    let a = store.get(&identity_of("first")).unwrap();
    assert_eq!((a.occurrence_count, a.notification_ref), (1, 10));
    let b = store.get(&identity_of("second")).unwrap();
    assert_eq!((b.occurrence_count, b.notification_ref), (3, 11));
    assert_eq!(store.find_traceback(10), Some(String::from("first")));
    assert_eq!(store.find_traceback(11), Some(String::from("second")));
    assert_eq!(sink, vec![10, 11]);
}

#[test]
fn retrieval_round_trip() {
    let mut store = RecordStore::new();
    assert_eq!(store.find_traceback(42), None);
    let text = "line one\nline two ✓ with unicode";
    let mut sink = Vec::new();
    let mut next = 42;
    report(&mut store, &mut sink, &mut next, text);
    assert_eq!(store.find_traceback(42).as_deref(), Some(text));
    assert_eq!(store.find_traceback(43), None);
    assert_eq!(store.find_traceback(0), None);
}

#[test]
fn three_reports_of_one_failure() {
    let text = "panic: nil deref at X";
    let mut store = RecordStore::new();
    let r = match begin_report(&mut store, text).unwrap() {
        FirstStep::FirstSighting { identity } => {
            assert_eq!(settle_first_sighting(&mut store, &identity, text, 777), Ok(None));
            777
        }
        other => panic!("unexpected {:?}", other),
    };
    assert_eq!(store.get(&identity_of(text)).unwrap().occurrence_count, 1);
    assert_eq!(store.find_traceback(r).as_deref(), Some(text));
    assert_eq!(
        begin_report(&mut store, text),
        Ok(FirstStep::Repeat { notification_ref: r, occurrences: 2 })
    );
    assert_eq!(store.find_traceback(r).as_deref(), Some(text));
    assert_eq!(
        begin_report(&mut store, text),
        Ok(FirstStep::Repeat { notification_ref: r, occurrences: 3 })
    );
    assert_eq!(store.get(&identity_of(text)).unwrap().occurrence_count, 3);
    assert_eq!(store.find_traceback(r).as_deref(), Some(text));
}

#[test]
fn insert_or_increment_returns_existing_reference() {
    let mut store = RecordStore::new();
    let id = identity_of("t");
    assert_eq!(store.insert_or_increment(&id, "t", 5), Ok(5));
    assert_eq!(store.insert_or_increment(&id, "other text", 6), Ok(5));
    let rec = store.get(&id).unwrap();
    assert_eq!(rec.occurrence_count, 2);
    assert_eq!(rec.diagnostic_text, "t");
    assert_eq!(store.try_increment(&id), Ok(Some((5, 3))));
    assert_eq!(store.try_increment(&identity_of("u")), Ok(None));
    assert_eq!(store.len(), 1);
}

#[test]
fn reused_reference_is_refused() {
    let mut store = RecordStore::new();
    assert_eq!(store.insert_or_increment(&identity_of("a"), "a", 9), Ok(9));
    assert_eq!(
        store.insert_or_increment(&identity_of("b"), "b", 9),
        Err(StoreError::ReferenceInUse)
    );
    assert_eq!(store.len(), 1);
    assert!(store.get(&identity_of("b")).is_none());
    let id = identity_of("b");
    assert_eq!(
        settle_first_sighting(&mut store, &id, "b", 9),
        Err(StoreError::ReferenceInUse)
    );
}

#[test]
fn blank_field_is_empty_inline() {
    assert_eq!(blank_field(), ("\u{200B}", "\u{200B}", true));
}

#[test]
fn values_render_as_code_except_blank() {
    assert_eq!(render_value("MessageCreate"), "`MessageCreate`");
    assert_eq!(render_value(""), "``");
    assert_eq!(render_value("\u{200B}"), "\u{200B}");
    assert_eq!(render_value("\u{200B}\u{200B}"), "`\u{200B}\u{200B}`");
}

#[test]
fn notification_fields_in_order() {
    let extra = vec![
        (String::from("Guild"), String::from("Home"), true),
        (String::from("\u{200B}"), String::from("\u{200B}"), false),
    ];
    let f = notification_fields("command", "bot", &extra, "0.5", "1024", "2");
    let got: Vec<(&str, &str, bool)> =
        f.iter().map(|x| (x.title.as_str(), x.value.as_str(), x.inline)).collect();
    assert_eq!(
        got,
        vec![
            ("Event", "`command`", true),
            ("Bot User", "`bot`", true),
            ("\u{200B}", "\u{200B}", true),
            ("Guild", "`Home`", true),
            ("\u{200B}", "\u{200B}", false),
            ("CPU Usage (5 minutes)", "`0.5`", true),
            ("System Memory Usage", "`1024`", true),
            ("Shard Count", "`2`", true),
        ]
    );
}

#[test]
fn channel_labels() {
    assert_eq!(channel_type(ChannelKind::Text), "Text Channel");
    assert_eq!(channel_type(ChannelKind::News), "Text Channel");
    assert_eq!(channel_type(ChannelKind::Voice), "Voice Channel");
    assert_eq!(channel_type(ChannelKind::NewsThread), "News Thread Channel");
    assert_eq!(channel_type(ChannelKind::PublicThread), "Public Thread Channel");
    assert_eq!(channel_type(ChannelKind::PrivateThread), "Private Thread Channel");
    assert_eq!(channel_type(ChannelKind::OtherGuildChannel), "Unknown Channel Type");
    assert_eq!(channel_type(ChannelKind::Private), "Private Channel");
    assert_eq!(channel_type(ChannelKind::Category), "Category Channel??");
    assert_eq!(channel_type(ChannelKind::Unknown), "Unknown Channel Type");
}

#[test]
fn footer_counts_occurrences() {
    assert_eq!(occurrence_footer(1), "This error has occurred 1 time!");
    assert_eq!(occurrence_footer(0), "This error has occurred 0 times!");
    assert_eq!(occurrence_footer(2), "This error has occurred 2 times!");
    assert_eq!(occurrence_footer(10), "This error has occurred 10 times!");
    assert_eq!(occurrence_footer(907), "This error has occurred 907 times!");
    assert_eq!(
        occurrence_footer(u64::MAX),
        "This error has occurred 18446744073709551615 times!"
    );
}

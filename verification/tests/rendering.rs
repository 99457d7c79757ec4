use tower_request_id::RequestId;

const ALPHABET: &str = "0123456789ABCDEFGHJKMNPQRSTVWXYZ";

#[test]
fn render_is_26_chars_over_alphabet() {
    for _ in 0..100 {
        let id = RequestId::new();
        let text = id.render_as_text();
        assert_eq!(text.len(), 26);
        for c in text.chars() {
            assert!(ALPHABET.contains(c));
        }
    }
}

#[test]
fn render_zero() {
    let text = RequestId(0).render_as_text();
    assert_eq!(text, "00000000000000000000000000");
}

#[test]
fn render_max() {
    let text = RequestId(u128::MAX).render_as_text();
    assert_eq!(text, "7ZZZZZZZZZZZZZZZZZZZZZZZZZ");
}

#[test]
fn render_known_value() {
    let text = RequestId(1974051973948898290604795105153824161).render_as_text();
    assert_eq!(text, "01FGR4DNBYJ0M7ZV6XS3JHXDD1");
}

#[test]
fn render_small_values() {
    assert_eq!(RequestId(1).render_as_text(), "00000000000000000000000001");
    assert_eq!(RequestId(31).render_as_text(), "0000000000000000000000000Z");
    assert_eq!(RequestId(32).render_as_text(), "00000000000000000000000010");
}

#[test]
fn render_agrees_with_ulid_crate() {
    let samples: Vec<u128> = vec![
        0,
        1,
        31,
        32,
        u128::MAX,
        1974051973948898290604795105153824161,
        RequestId::new().0,
        RequestId::new().0,
        RequestId::new().0,
    ];
    for v in samples {
        assert_eq!(RequestId(v).render_as_text(), ulid::Ulid(v).to_string());
    }
}

#[test]
fn render_sorts_with_value() {
    // Millisecond timestamps occupy the top 48 bits: a later timestamp gives
    // a larger value, whatever the random tail holds.
    let t1: u128 = 1_000;
    let t2: u128 = 1_001;
    let a = RequestId((t1 << 80) | ((1u128 << 80) - 1));
    let b = RequestId(t2 << 80);
    assert!(a.0 < b.0);
    assert!(a.render_as_text() <= b.render_as_text());

    // Equal timestamps, ordered random tails.
    let c = RequestId((t1 << 80) | 7);
    let d = RequestId((t1 << 80) | 8);
    assert!(c.render_as_text() <= d.render_as_text());

    // Dense check near a digit boundary.
    let mut previous = RequestId(0).render_as_text();
    for v in 1u128..200 {
        let text = RequestId(v).render_as_text();
        assert!(previous < text);
        previous = text;
    }
}

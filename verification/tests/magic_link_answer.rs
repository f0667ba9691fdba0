use overslash_api::magic_link::{magic_link_answer, MagicLinkAnswer};

#[test]
fn magic_link_answers_are_uniform() {
    assert_eq!(magic_link_answer(false, true, 0, 0, true, true, true, false), MagicLinkAnswer::Disabled);
    assert_eq!(
        magic_link_answer(true, false, 160, 100, true, true, true, false),
        MagicLinkAnswer::RateLimited { limit: 30, reset_at: 160, retry_after: 60 }
    );
    assert_eq!(
        magic_link_answer(true, false, 90, 100, true, true, true, false),
        MagicLinkAnswer::RateLimited { limit: 30, reset_at: 90, retry_after: 0 }
    );
    for valid in [false, true] {
        for allowed in [false, true] {
            for sent in [false, true] {
                assert_eq!(
                    magic_link_answer(true, true, 0, 0, valid, allowed, sent, false),
                    MagicLinkAnswer::Sent
                );
            }
        }
    }
    assert_eq!(magic_link_answer(true, true, 0, 0, true, true, true, true), MagicLinkAnswer::SentWithDevLink);
    assert_eq!(magic_link_answer(true, true, 0, 0, true, true, false, true), MagicLinkAnswer::Sent);
}

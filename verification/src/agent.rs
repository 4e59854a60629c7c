//! The user agents under which requests are sent.
//!
//! Each request names one agent out of a small pool. Which one is the
//! caller's choice: it hands in a number, drawn at random for real traffic
//! and fixed where the outcome has to be known, and the pool is indexed by
//! that number modulo its size.

use vstd::prelude::*;
use crate::headers::{is_header_text, lemma_visible_upto, visible_upto};

verus! {

/// The agents of browsers that run without scripts.
pub open spec fn no_js_pool() -> Seq<Seq<char>> {
    seq![
        "Lynx/2.9.0 libwww-FM/2.14 SSL-MM/1.4.1 OpenSSL/3.0.13"@,
        "Links (2.29; Linux 6.5.0 x86_64; GNU C 13.2; text)"@,
        "w3m/0.5.3+git20230121"@,
        "Mozilla/5.0 (X11; Linux x86_64; rv:109.0) Gecko/20100101 Firefox/115.0"@,
    ]
}

/// The agents of current desktop browsers.
pub open spec fn pool() -> Seq<Seq<char>> {
    seq![
        "Mozilla/5.0 (Windows NT 10.0; Win64; x64) AppleWebKit/537.36 (KHTML, like Gecko) Chrome/124.0.0.0 Safari/537.36"@,
        "Mozilla/5.0 (Macintosh; Intel Mac OS X 10_15_7) AppleWebKit/605.1.15 (KHTML, like Gecko) Version/17.4 Safari/605.1.15"@,
        "Mozilla/5.0 (X11; Linux x86_64; rv:125.0) Gecko/20100101 Firefox/125.0"@,
        "Mozilla/5.0 (Windows NT 10.0; Win64; x64) AppleWebKit/537.36 (KHTML, like Gecko) Chrome/124.0.0.0 Safari/537.36 Edg/124.0.0.0"@,
    ]
}

/// A user agent to send a request under.
pub struct UserAgent;

impl UserAgent {
    /// The agent of a browser without scripts that `pick` selects.
    pub fn random_no_js(pick: usize) -> (agent: &'static str)
        ensures
            agent@ == no_js_pool()[(pick % 4) as int],
            is_header_text(agent@),
    {
        let slot = pick % 4;
        if slot == 0 {
            let agent = "Lynx/2.9.0 libwww-FM/2.14 SSL-MM/1.4.1 OpenSSL/3.0.13";
            proof {
                reveal_strlit("Lynx/2.9.0 libwww-FM/2.14 SSL-MM/1.4.1 OpenSSL/3.0.13");
                reveal_with_fuel(visible_upto, 30);
                assert(agent@.len() == 53);
                assert(visible_upto(agent@, 27));
                assert(visible_upto(agent@, 53));
                lemma_visible_upto(agent@, 53);
            }
            agent
        } else if slot == 1 {
            let agent = "Links (2.29; Linux 6.5.0 x86_64; GNU C 13.2; text)";
            proof {
                reveal_strlit("Links (2.29; Linux 6.5.0 x86_64; GNU C 13.2; text)");
                reveal_with_fuel(visible_upto, 30);
                assert(agent@.len() == 50);
                assert(visible_upto(agent@, 25));
                assert(visible_upto(agent@, 50));
                lemma_visible_upto(agent@, 50);
            }
            agent
        } else if slot == 2 {
            let agent = "w3m/0.5.3+git20230121";
            proof {
                reveal_strlit("w3m/0.5.3+git20230121");
                reveal_with_fuel(visible_upto, 30);
                assert(agent@.len() == 21);
                assert(visible_upto(agent@, 21));
                lemma_visible_upto(agent@, 21);
            }
            agent
        } else {
            let agent = "Mozilla/5.0 (X11; Linux x86_64; rv:109.0) Gecko/20100101 Firefox/115.0";
            proof {
                reveal_strlit(
                    "Mozilla/5.0 (X11; Linux x86_64; rv:109.0) Gecko/20100101 Firefox/115.0",
                );
                reveal_with_fuel(visible_upto, 30);
                assert(agent@.len() == 70);
                assert(visible_upto(agent@, 25));
                assert(visible_upto(agent@, 50));
                assert(visible_upto(agent@, 70));
                lemma_visible_upto(agent@, 70);
            }
            agent
        }
    }

    /// The agent of a desktop browser that `pick` selects.
    pub fn random(pick: usize) -> (agent: &'static str)
        ensures
            agent@ == pool()[(pick % 4) as int],
            is_header_text(agent@),
    {
        let slot = pick % 4;
        if slot == 0 {
            let agent = "Mozilla/5.0 (Windows NT 10.0; Win64; x64) AppleWebKit/537.36 (KHTML, like Gecko) Chrome/124.0.0.0 Safari/537.36";
            proof {
                reveal_strlit(
                    "Mozilla/5.0 (Windows NT 10.0; Win64; x64) AppleWebKit/537.36 (KHTML, like Gecko) Chrome/124.0.0.0 Safari/537.36",
                );
                reveal_with_fuel(visible_upto, 30);
                assert(agent@.len() == 111);
                assert(visible_upto(agent@, 25));
                assert(visible_upto(agent@, 50));
                assert(visible_upto(agent@, 75));
                assert(visible_upto(agent@, 100));
                assert(visible_upto(agent@, 111));
                lemma_visible_upto(agent@, 111);
            }
            agent
        } else if slot == 1 {
            let agent = "Mozilla/5.0 (Macintosh; Intel Mac OS X 10_15_7) AppleWebKit/605.1.15 (KHTML, like Gecko) Version/17.4 Safari/605.1.15";
            proof {
                reveal_strlit(
                    "Mozilla/5.0 (Macintosh; Intel Mac OS X 10_15_7) AppleWebKit/605.1.15 (KHTML, like Gecko) Version/17.4 Safari/605.1.15",
                );
                reveal_with_fuel(visible_upto, 30);
                assert(agent@.len() == 117);
                assert(visible_upto(agent@, 25));
                assert(visible_upto(agent@, 50));
                assert(visible_upto(agent@, 75));
                assert(visible_upto(agent@, 100));
                assert(visible_upto(agent@, 117));
                lemma_visible_upto(agent@, 117);
            }
            agent
        } else if slot == 2 {
            let agent = "Mozilla/5.0 (X11; Linux x86_64; rv:125.0) Gecko/20100101 Firefox/125.0";
            proof {
                reveal_strlit(
                    "Mozilla/5.0 (X11; Linux x86_64; rv:125.0) Gecko/20100101 Firefox/125.0",
                );
                reveal_with_fuel(visible_upto, 30);
                assert(agent@.len() == 70);
                assert(visible_upto(agent@, 25));
                assert(visible_upto(agent@, 50));
                assert(visible_upto(agent@, 70));
                lemma_visible_upto(agent@, 70);
            }
            agent
        } else {
            let agent = "Mozilla/5.0 (Windows NT 10.0; Win64; x64) AppleWebKit/537.36 (KHTML, like Gecko) Chrome/124.0.0.0 Safari/537.36 Edg/124.0.0.0";
            proof {
                reveal_strlit(
                    "Mozilla/5.0 (Windows NT 10.0; Win64; x64) AppleWebKit/537.36 (KHTML, like Gecko) Chrome/124.0.0.0 Safari/537.36 Edg/124.0.0.0",
                );
                reveal_with_fuel(visible_upto, 30);
                assert(agent@.len() == 125);
                assert(visible_upto(agent@, 25));
                assert(visible_upto(agent@, 50));
                assert(visible_upto(agent@, 75));
                assert(visible_upto(agent@, 100));
                assert(visible_upto(agent@, 125));
                lemma_visible_upto(agent@, 125);
            }
            agent
        }
    }
}

} // verus!

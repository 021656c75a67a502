//! Database-side rules: how a connection URL is shown without its
//! credentials, and the records the importers hand to the database.

pub mod models;
pub mod schema;

use crate::text::{chars_of, field_end, find_field_end, lemma_field_end, text_of_range};
use vstd::prelude::*;

verus! {

/// The part of a database URL that is safe to show: the text after the first
/// `@` (up to any next `@`), or the whole URL when it has no `@`, cut at the
/// first `/`.
pub open spec fn host_port_of(url: Seq<char>) -> Seq<char> {
    let at = field_end(url, '@', 0);
    let segment = if at < url.len() {
        url.subrange(at + 1, field_end(url, '@', at + 1))
    } else {
        url
    };
    segment.take(field_end(segment, '/', 0))
}

/// The host and port of a database URL, for logging it without the user
/// name and password that precede the `@`.
pub fn database_host_port(url: &str) -> (r: String)
    ensures
        r@ == host_port_of(url@),
        !r@.contains('@'),
        !r@.contains('/'),
{
    let chars = chars_of(url);
    let at = find_field_end(&chars, '@', 0);
    proof {
        lemma_field_end(url@, '@', 0);
    }
    let segment = if at < chars.len() {
        let seg_end = find_field_end(&chars, '@', at + 1);
        proof {
            lemma_field_end(url@, '@', at + 1);
        }
        text_of_range(&chars, at + 1, seg_end)
    } else {
        text_of_range(&chars, 0, chars.len())
    };
    assert(segment@ == url@ || at < url@.len());
    proof {
        if at >= url@.len() {
            assert(url@.subrange(0, url@.len() as int) =~= url@);
        }
    }
    let seg_chars = chars_of(segment.as_str());
    let slash = find_field_end(&seg_chars, '/', 0);
    proof {
        lemma_field_end(segment@, '/', 0);
    }
    let r = text_of_range(&seg_chars, 0, slash);
    assert(r@ =~= segment@.take(slash as int));
    assert(!r@.contains('@')) by {
        if r@.contains('@') {
            let k = choose|k: int| 0 <= k < r@.len() && r@[k] == '@';
            assert(segment@[k] == '@');
            if at < url@.len() {
                assert(url@[at + 1 + k] == '@');
            } else {
                assert(url@[k] == '@');
            }
        }
    }
    assert(!r@.contains('/')) by {
        if r@.contains('/') {
            let k = choose|k: int| 0 <= k < r@.len() && r@[k] == '/';
            assert(segment@[k] == '/');
        }
    }
    r
}

} // verus!

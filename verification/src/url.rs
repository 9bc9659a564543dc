//! Connection specifiers and their canonical URLs.

use vstd::prelude::*;
use crate::text::{chars_of, extend_from, has_at, starts_with_at, string_of};

verus! {

/// The canonical connection URL of a specifier.
///
/// The empty specifier names the transient in-memory database. `mysql:` and
/// `postgres:` / `postgresql:` get `//` after the scheme unless the rest
/// already starts with it, and the scheme `postgresql` always becomes
/// `postgres`; `sqlite:` is left alone; anything else is a file path, opened
/// read-write and created when missing.
pub open spec fn normalized_url(db: Seq<char>) -> Seq<char> {
    if db.len() == 0 {
        "sqlite::memory:"@
    } else if has_at(db, 0, "mysql:"@) {
        if has_at(db, 6, "//"@) {
            db
        } else {
            "mysql://"@ + db.skip(6)
        }
    } else if has_at(db, 0, "postgres:"@) {
        if has_at(db, 9, "//"@) {
            db
        } else {
            "postgres://"@ + db.skip(9)
        }
    } else if has_at(db, 0, "postgresql:"@) {
        if has_at(db, 11, "//"@) {
            "postgres:"@ + db.skip(11)
        } else {
            "postgres://"@ + db.skip(11)
        }
    } else if has_at(db, 0, "sqlite:"@) {
        db
    } else {
        "sqlite:"@ + db + "?mode=rwc"@
    }
}

/// Maps a connection specifier to its canonical URL.
pub fn normalize_db_url(db: &str) -> (url: String)
    ensures
        url@ == normalized_url(db@),
{
    let s = chars_of(db);
    proof {
        reveal_strlit("mysql:");
        reveal_strlit("postgres:");
        reveal_strlit("postgresql:");
        reveal_strlit("sqlite:");
        reveal_strlit("//");
    }
    if s.len() == 0 {
        return "sqlite::memory:".to_string();
    }
    if starts_with_at(&s, 0, "mysql:") {
        if starts_with_at(&s, 6, "//") {
            return string_of(&s);
        }
        let mut out = chars_of("mysql://");
        extend_from(&mut out, &s, 6);
        return string_of(&out);
    }
    if starts_with_at(&s, 0, "postgres:") {
        if starts_with_at(&s, 9, "//") {
            return string_of(&s);
        }
        let mut out = chars_of("postgres://");
        extend_from(&mut out, &s, 9);
        return string_of(&out);
    }
    if starts_with_at(&s, 0, "postgresql:") {
        if starts_with_at(&s, 11, "//") {
            let mut out = chars_of("postgres:");
            extend_from(&mut out, &s, 11);
            return string_of(&out);
        }
        let mut out = chars_of("postgres://");
        extend_from(&mut out, &s, 11);
        return string_of(&out);
    }
    if starts_with_at(&s, 0, "sqlite:") {
        return string_of(&s);
    }
    let mut out = chars_of("sqlite:");
    extend_from(&mut out, &s, 0);
    let tail = chars_of("?mode=rwc");
    extend_from(&mut out, &tail, 0);
    string_of(&out)
}

/// Normalizing is idempotent: a canonical URL is its own canonical URL.
pub proof fn lemma_normalized_is_fixed(db: Seq<char>)
    ensures
        normalized_url(normalized_url(db)) == normalized_url(db),
{
    reveal_strlit("sqlite::memory:");
    reveal_strlit("mysql:");
    reveal_strlit("mysql://");
    reveal_strlit("postgres:");
    reveal_strlit("postgres://");
    reveal_strlit("postgresql:");
    reveal_strlit("sqlite:");
    reveal_strlit("//");
    reveal_strlit("?mode=rwc");
    let url = normalized_url(db);
    if db.len() == 0 {
        assert(url.subrange(0, 7) =~= "sqlite:"@);
        assert(url.subrange(0, 6)[0] == 's');
        assert(url.subrange(0, 9)[0] == 's');
        assert(url.subrange(0, 11)[0] == 's');
    } else if has_at(db, 0, "mysql:"@) {
        if !has_at(db, 6, "//"@) {
            assert(url.subrange(0, 6) =~= "mysql:"@);
            assert(url.subrange(6, 8) =~= "//"@);
        }
    } else if has_at(db, 0, "postgres:"@) {
        if !has_at(db, 9, "//"@) {
            assert(url.subrange(0, 9) =~= "postgres:"@);
            assert(url.subrange(9, 11) =~= "//"@);
            assert(url.subrange(0, 6)[0] == 'p');
        }
    } else if has_at(db, 0, "postgresql:"@) {
        if has_at(db, 11, "//"@) {
            assert(db.subrange(11, 13)[0] == db[11]);
            assert(db.subrange(11, 13)[1] == db[12]);
        }
        assert(url.subrange(0, 9) =~= "postgres:"@);
        assert(url.subrange(9, 11) =~= "//"@);
        assert(url.subrange(0, 6)[0] == 'p');
    } else if has_at(db, 0, "sqlite:"@) {
    } else {
        assert(url.subrange(0, 7) =~= "sqlite:"@);
        assert(url.subrange(0, 6)[0] == 's');
        assert(url.subrange(0, 9)[0] == 's');
        assert(url.subrange(0, 11)[0] == 's');
    }
}

} // verus!

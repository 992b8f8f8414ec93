//! The connection-string parser: it validates the one supported scheme
//! prefix and splits the remainder into host, optional port, and optional
//! schema, which then override the descriptor's fields.

use vstd::prelude::*;
use crate::descriptor::ConnectionConfig;
use crate::error::DbError;
use crate::text::{dec_val, find_char, is_digit_char, lemma_dec_val_step, spec_find};

verus! {

/// Everything after the scheme prefix.
pub open spec fn url_rest(u: Seq<char>) -> Seq<char> {
    u.skip(13)
}

/// Whether the string begins with the supported scheme prefix.
pub open spec fn url_has_prefix(u: Seq<char>) -> bool {
    u.len() >= 13 && u.subrange(0, 13) == crate::jdbc_prefix()
}

/// The host-spec: the remainder up to the first `/`, or all of it.
pub open spec fn url_host_port(u: Seq<char>) -> Seq<char> {
    let rest = url_rest(u);
    if spec_find(rest, '/') == -1 {
        rest
    } else {
        rest.take(spec_find(rest, '/'))
    }
}

/// Whether a database-spec follows the host-spec.
pub open spec fn url_has_db_part(u: Seq<char>) -> bool {
    spec_find(url_rest(u), '/') != -1
}

/// The database-spec: everything after the first `/` of the remainder.
pub open spec fn url_db_part(u: Seq<char>) -> Seq<char> {
    let rest = url_rest(u);
    rest.skip(spec_find(rest, '/') + 1)
}

/// The new host: the host-spec up to the first `:`, or all of it.
pub open spec fn url_host(u: Seq<char>) -> Seq<char> {
    let hp = url_host_port(u);
    if spec_find(hp, ':') == -1 {
        hp
    } else {
        hp.take(spec_find(hp, ':'))
    }
}

/// Whether the host-spec carries a port.
pub open spec fn url_has_port(u: Seq<char>) -> bool {
    spec_find(url_host_port(u), ':') != -1
}

/// The port text: the host-spec after the first `:`.
pub open spec fn url_port_text(u: Seq<char>) -> Seq<char> {
    let hp = url_host_port(u);
    hp.skip(spec_find(hp, ':') + 1)
}

/// Whether a port text parses as an unsigned 16-bit integer: nonempty, all
/// decimal digits, and within range.
pub open spec fn port_text_ok(s: Seq<char>) -> bool {
    &&& s.len() > 0
    &&& forall|i: int| 0 <= i < s.len() ==> is_digit_char(s[i])
    &&& dec_val(s) <= 65535
}

/// The parsed port.
pub open spec fn url_port(u: Seq<char>) -> u16 {
    dec_val(url_port_text(u)) as u16
}

/// The schema text: the database-spec up to the first `?`, or all of it.
pub open spec fn url_schema_text(u: Seq<char>) -> Seq<char> {
    let db = url_db_part(u);
    if spec_find(db, '?') == -1 {
        db
    } else {
        db.take(spec_find(db, '?'))
    }
}

/// Whether the string supplies a schema: a database-spec exists and its
/// segment before any `?` is non-empty.
pub open spec fn url_sets_schema(u: Seq<char>) -> bool {
    url_has_db_part(u) && url_schema_text(u).len() > 0
}

/// Whether the whole connection string is accepted: the prefix is right and
/// the port, when present, parses.
pub open spec fn url_ok(u: Seq<char>) -> bool {
    url_has_prefix(u) && (url_has_port(u) ==> port_text_ok(url_port_text(u)))
}

/// Check the scheme prefix character by character.
fn has_jdbc_prefix(s: &str) -> (r: bool)
    ensures
        r == url_has_prefix(s@),
{
    let len = s.unicode_len();
    if len < 13 {
        return false;
    }
    let p = "jdbc:mysql://";
    proof {
        reveal_strlit("jdbc:mysql://");
        assert(p@ =~= crate::jdbc_prefix());
    }
    let mut i: usize = 0;
    while i < 13
        invariant
            len == s@.len(),
            len >= 13,
            p@ == crate::jdbc_prefix(),
            p@.len() == 13,
            i <= 13,
            forall|j: int| 0 <= j < i ==> s@[j] == crate::jdbc_prefix()[j],
        decreases 13 - i,
    {
        if s.get_char(i) != p.get_char(i) {
            proof {
                let sub = s@.subrange(0, 13);
                assert(sub[i as int] == s@[i as int]);
                if sub == crate::jdbc_prefix() {
                    assert(sub[i as int] == crate::jdbc_prefix()[i as int]);
                }
            }
            return false;
        }
        i = i + 1;
    }
    proof {
        assert(s@.subrange(0, 13) =~= crate::jdbc_prefix());
    }
    true
}

/// Parse a port text as an unsigned 16-bit integer.
fn parse_port(s: &str) -> (r: Option<u16>)
    ensures
        match r {
            Some(v) => port_text_ok(s@) && v as nat == dec_val(s@),
            None => !port_text_ok(s@),
        },
{
    let len = s.unicode_len();
    if len == 0 {
        return None;
    }
    let mut i: usize = 0;
    let mut val: u32 = 0;
    let mut too_big = false;
    while i < len
        invariant
            len == s@.len(),
            i <= len,
            forall|j: int| 0 <= j < i ==> is_digit_char(s@[j]),
            !too_big ==> val as nat == dec_val(s@.take(i as int)) && val <= 65535,
            too_big ==> dec_val(s@.take(i as int)) > 65535,
        decreases len - i,
    {
        let c = s.get_char(i);
        if c < '0' || c > '9' {
            return None;
        }
        let d: u32 = (c as u32) - ('0' as u32);
        proof {
            lemma_dec_val_step(s@, i as int);
        }
        if too_big {
        } else {
            let nv = val * 10 + d;
            if nv > 65535 {
                too_big = true;
            } else {
                val = nv;
            }
        }
        i = i + 1;
    }
    proof {
        assert(s@.take(len as int) =~= s@);
    }
    if too_big {
        None
    } else {
        Some(val as u16)
    }
}

/// Parse a connection string of the form
/// `jdbc:mysql://host[:port]/[schema][?params]` and overwrite the
/// descriptor's `host`, `port` and `schema` with what it carries.
///
/// On success, `host` becomes the substring before the optional `:port`,
/// `port` the parsed integer when one is present (else it keeps its value),
/// and `schema` the substring between `/` and the first `?` when that
/// segment is non-empty (else it keeps its value). Query parameters after
/// `?` are accepted but not interpreted. On any failure the descriptor is
/// left untouched.
pub fn parse_jdbc_url(jdbc_url: &str, config: &mut ConnectionConfig) -> (r: Result<(), DbError>)
    ensures
        r is Ok <==> url_ok(jdbc_url@),
        r is Ok ==> {
            &&& final(config).host@ == url_host(jdbc_url@)
            &&& final(config).port == if url_has_port(jdbc_url@) {
                url_port(jdbc_url@)
            } else {
                old(config).port
            }
            &&& final(config).schema.deep_view() == if url_sets_schema(jdbc_url@) {
                Some(url_schema_text(jdbc_url@))
            } else {
                old(config).schema.deep_view()
            }
            &&& final(config).id == old(config).id
            &&& final(config).username == old(config).username
            &&& final(config).password == old(config).password
            &&& final(config).jdbc_url == old(config).jdbc_url
            &&& final(config).create_time == old(config).create_time
            &&& final(config).touch_time == old(config).touch_time
        },
        r matches Err(e) ==> {
            &&& *final(config) == *old(config)
            &&& e matches DbError::ConnectionError(m) && m@ == (
            if !url_has_prefix(jdbc_url@) {
                "Unsupported JDBC URL format. Only MySQL is supported."@
            } else {
                "Invalid port in JDBC URL"@
            })
        },
{
    if !has_jdbc_prefix(jdbc_url) {
        return Err(
            DbError::ConnectionError(
                String::from_str("Unsupported JDBC URL format. Only MySQL is supported."),
            ),
        );
    }
    let len = jdbc_url.unicode_len();
    let rest = jdbc_url.substring_char(13, len);
    proof {
        assert(rest@ =~= url_rest(jdbc_url@));
    }
    let rest_len = rest.unicode_len();
    let slash = find_char(rest, '/');
    let host_port = match slash {
        Some(k) => rest.substring_char(0, k),
        None => rest,
    };
    proof {
        assert(host_port@ =~= url_host_port(jdbc_url@));
    }
    let hp_len = host_port.unicode_len();
    let colon = find_char(host_port, ':');
    let host_slice = match colon {
        Some(j) => host_port.substring_char(0, j),
        None => host_port,
    };
    proof {
        assert(host_slice@ =~= url_host(jdbc_url@));
    }
    let new_port: Option<u16> = match colon {
        Some(j) => {
            let port_text = host_port.substring_char(j + 1, hp_len);
            proof {
                assert(port_text@ =~= url_port_text(jdbc_url@));
            }
            match parse_port(port_text) {
                Some(v) => Some(v),
                None => {
                    return Err(
                        DbError::ConnectionError(String::from_str("Invalid port in JDBC URL")),
                    );
                },
            }
        },
        None => None,
    };
    let new_host = String::from_str(host_slice);
    let new_schema: Option<String> = match slash {
        Some(k) => {
            let db_part = rest.substring_char(k + 1, rest_len);
            proof {
                assert(db_part@ =~= url_db_part(jdbc_url@));
            }
            let db_len = db_part.unicode_len();
            let quest = find_char(db_part, '?');
            let seg = match quest {
                Some(q) => db_part.substring_char(0, q),
                None => db_part,
            };
            proof {
                assert(seg@ =~= url_schema_text(jdbc_url@));
            }
            if seg.unicode_len() > 0 {
                Some(String::from_str(seg))
            } else {
                None
            }
        },
        None => None,
    };
    config.host = new_host;
    match new_port {
        Some(v) => {
            config.port = v;
        },
        None => {},
    }
    match new_schema {
        Some(sch) => {
            config.schema = Some(sch);
        },
        None => {},
    }
    Ok(())
}

/// Whether a descriptor resolves: either it carries no connection string,
/// or the one it carries is accepted by the parser.
pub open spec fn resolve_ok(c: ConnectionConfig) -> bool {
    match c.jdbc_url {
        Some(u) => url_ok(u@),
        None => true,
    }
}

/// How a resolved descriptor relates to the one handed in: the identity
/// fields and timestamps carry over, the connection string is cleared, and
/// `host`, `port` and `schema` come from the connection string when one was
/// present (the string is authoritative), else stay as supplied.
pub open spec fn resolves_to(c: ConnectionConfig, r: ConnectionConfig) -> bool {
    &&& r.id@ == c.id@
    &&& r.username@ == c.username@
    &&& r.password@ == c.password@
    &&& r.create_time == c.create_time
    &&& r.touch_time == c.touch_time
    &&& r.jdbc_url is None
    &&& match c.jdbc_url {
        None => r.host@ == c.host@ && r.port == c.port && r.schema.deep_view()
            == c.schema.deep_view(),
        Some(u) => {
            &&& r.host@ == url_host(u@)
            &&& r.port == if url_has_port(u@) {
                url_port(u@)
            } else {
                c.port
            }
            &&& r.schema.deep_view() == if url_sets_schema(u@) {
                Some(url_schema_text(u@))
            } else {
                c.schema.deep_view()
            }
        },
    }
}

/// Resolve a descriptor into concrete connection parameters: parse its
/// connection string when one is present (propagating the parser's failure
/// and leaving nothing resolved), and clear the string on success.
pub fn resolve_descriptor(config: ConnectionConfig) -> (r: Result<ConnectionConfig, DbError>)
    ensures
        r is Ok <==> resolve_ok(config),
        r matches Ok(res) ==> resolves_to(config, res),
        r matches Err(e) ==> (e matches DbError::ConnectionError(m) && (match config.jdbc_url {
            Some(u) => m@ == (
            if !url_has_prefix(u@) {
                "Unsupported JDBC URL format. Only MySQL is supported."@
            } else {
                "Invalid port in JDBC URL"@
            }),
            None => false,
        })),
{
    let ConnectionConfig {
        id,
        host,
        port,
        username,
        password,
        schema,
        jdbc_url,
        create_time,
        touch_time,
    } = config;
    let mut resolved = ConnectionConfig {
        id,
        host,
        port,
        username,
        password,
        schema,
        jdbc_url: None,
        create_time,
        touch_time,
    };
    match jdbc_url {
        None => Ok(resolved),
        Some(u) => {
            match parse_jdbc_url(u.as_str(), &mut resolved) {
                Ok(()) => Ok(resolved),
                Err(e) => Err(e),
            }
        },
    }
}

} // verus!

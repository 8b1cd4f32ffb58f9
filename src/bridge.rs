use crate::outcome::{BridgeError, LookupResult};
use crate::parser::{
    covered, decode_map, decode_outcome, find_token, found_view, generated_positions, is_covered,
    token_at,
};
use crate::registry::Registry;
use vstd::prelude::*;

verus! {

/// The original position that the token found for generated line `line`
/// gives: none unless the token lies on that line; else its source name, or
/// the empty string where it has none, then its line and column.
pub open spec fn resolved(line: u32, found: Option<(u32, u32, u32, Option<Seq<char>>)>) -> Option<
    (Seq<char>, u32, u32),
> {
    match found {
        Some((generated_line, src_line, src_column, source)) => if generated_line == line {
            match source {
                Some(name) => Some((name, src_line, src_column)),
                None => Some((Seq::empty(), src_line, src_column)),
            }
        } else {
            None
        },
        None => None,
    }
}

/// What a query of these live maps finds: `None` where the handle names no
/// live map, else the original position of the covering token, if any. No
/// token covers a position unless one lies on its line at or before its column.
pub open spec fn query_spec(
    entries: Map<u32, sourcemap::SourceMap>,
    handle: u32,
    line: u32,
    column: u32,
) -> Option<Option<(Seq<char>, u32, u32)>> {
    if entries.contains_key(handle) {
        if covered(generated_positions(entries[handle]), line, column) {
            Some(resolved(line, token_at(entries[handle], line, column)))
        } else {
            Some(None)
        }
    } else {
        None
    }
}

/// Whether a query's result is the one that `expected` describes.
pub open spec fn query_matches(
    r: Result<LookupResult, BridgeError>,
    expected: Option<Option<(Seq<char>, u32, u32)>>,
) -> bool {
    match expected {
        None => r matches Err(BridgeError::SourceMapNotFound),
        Some(None) => r matches Err(BridgeError::LookupFailed),
        Some(Some((source, line, column))) => match r {
            Ok(v) => v.source@ == source && v.line == line && v.column == column,
            Err(_) => false,
        },
    }
}

/// What an ingest of `bytes` does: on bytes that decode, the next handle is
/// issued and names the new map; otherwise the registry stays as it was and
/// the parser's reason is returned.
pub open spec fn ingested(
    pre: Registry,
    bytes: Seq<u8>,
    post: Registry,
    r: Result<u32, BridgeError>,
) -> bool {
    registered(pre, decode_outcome(bytes), post, r)
}

/// What registering a decode outcome does (see `ingested`).
pub open spec fn registered(
    pre: Registry,
    decoded: Result<(), Seq<char>>,
    post: Registry,
    r: Result<u32, BridgeError>,
) -> bool {
    &&& post.wf()
    &&& match decoded {
        Ok(_) => {
            &&& post.issued() == pre.issued() + 1
            &&& r == Ok::<u32, BridgeError>(post.issued())
            &&& post.entries().contains_key(post.issued())
            &&& post.entries().remove(post.issued()) == pre.entries()
        },
        Err(reason) => {
            &&& post.issued() == pre.issued()
            &&& post.entries() == pre.entries()
            &&& match r {
                Err(BridgeError::ParseFailed(msg)) => msg@ == reason,
                _ => false,
            }
        },
    }
}

/// What a release of `handle` does: the map it names, if any, is dropped, and
/// the number of maps left is returned.
pub open spec fn released(pre: Registry, handle: u32, post: Registry, remaining: usize) -> bool {
    &&& post.wf()
    &&& post.issued() == pre.issued()
    &&& post.entries() == pre.entries().remove(handle)
    &&& remaining == post.entries().len()
}

/// The decode outcome of a parser result, its reason as characters.
pub open spec fn decoded_view(decoded: Result<sourcemap::SourceMap, String>) -> Result<
    (),
    Seq<char>,
> {
    match decoded {
        Ok(_) => Ok(()),
        Err(reason) => Err(reason@),
    }
}

/// Turns the token found for generated line `line`, or its absence, into the
/// caller's result: a token on another line covers nothing.
pub fn resolve_token(line: u32, found: Option<(u32, u32, u32, Option<String>)>) -> (r: Result<
    LookupResult,
    BridgeError,
>)
    ensures
        query_matches(r, Some(resolved(line, found_view(found)))),
        found matches Some((g, _, _, None)) ==> (g == line ==> (r matches Ok(v)
            && v.source@.len() == 0)),
{
    match found {
        Some((generated_line, src_line, src_column, source)) => {
            if generated_line != line {
                return Err(BridgeError::LookupFailed);
            }
            let source = match source {
                Some(name) => name,
                None => String::new(),
            };
            Ok(LookupResult { source, line: src_line, column: src_column })
        },
        None => Err(BridgeError::LookupFailed),
    }
}

/// Stores a decoded map under a freshly issued handle, or reports why the
/// bytes did not decode.
pub fn register_decoded(reg: &mut Registry, decoded: Result<sourcemap::SourceMap, String>) -> (r:
    Result<u32, BridgeError>)
    requires
        old(reg).wf(),
        old(reg).issued() < u32::MAX,
    ensures
        registered(*old(reg), decoded_view(decoded), *final(reg), r),
        decoded matches Ok(m) ==> final(reg).entries() == old(reg).entries().insert(
            final(reg).issued(),
            m,
        ),
{
    match decoded {
        Ok(map) => {
            let handle = reg.allocate();
            reg.insert(handle, map);
            proof {
                assert(final(reg).entries().remove(handle) =~= old(reg).entries());
            }
            Ok(handle)
        },
        Err(reason) => Err(BridgeError::ParseFailed(reason)),
    }
}

/// Parses a source map and stores it under a fresh handle, which is returned.
pub fn parse_source_map(reg: &mut Registry, source_map: &[u8]) -> (r: Result<u32, BridgeError>)
    requires
        old(reg).wf(),
        old(reg).issued() < u32::MAX,
    ensures
        ingested(*old(reg), source_map@, *final(reg), r),
        old(reg).issued() <= final(reg).issued(),
        r matches Ok(h) ==> old(reg).issued() < h && h == final(reg).issued(),
{
    let decoded = decode_map(source_map);
    register_decoded(reg, decoded)
}

/// Resolves a generated position in the map under `handle` to its original
/// position.
pub fn lookup_original_position(reg: &Registry, handle: u32, line: u32, column: u32) -> (r: Result<
    LookupResult,
    BridgeError,
>)
    ensures
        query_matches(r, query_spec(reg.entries(), handle, line, column)),
        reg.entries().contains_key(handle) && covered(
            generated_positions(reg.entries()[handle]),
            line,
            column,
        ) ==> (token_at(reg.entries()[handle], line, column) matches Some((g, _, _, None)) ==> (g
            == line ==> (r matches Ok(v) && v.source@.len() == 0))),
{
    match reg.get(handle) {
        Some(map) => {
            if !is_covered(map, line, column) {
                return Err(BridgeError::LookupFailed);
            }
            let found = find_token(map, line, column);
            resolve_token(line, found)
        },
        None => Err(BridgeError::SourceMapNotFound),
    }
}

/// Drops the map under `handle`, if any, and returns how many maps remain.
pub fn dispose(reg: &mut Registry, handle: u32) -> (remaining: usize)
    requires
        old(reg).wf(),
    ensures
        released(*old(reg), handle, *final(reg), remaining),
{
    reg.remove(handle)
}

} // verus!

use vstd::prelude::*;

verus! {

/// A source map parsed by the `sourcemap` crate, carried opaque through the
/// registry and read only through `find_token`.
#[verifier::external_type_specification]
#[verifier::external_body]
pub struct ExSourceMap(sourcemap::SourceMap);

/// What decoding these bytes as a source map gives: `Ok` when they hold one,
/// else `Err` with the parser's reason.
pub uninterp spec fn decode_outcome(bytes: Seq<u8>) -> Result<(), Seq<char>>;

/// The closest token at or before a generated (line, column) in a parsed map,
/// as its generated line, original line, original column and source name.
pub uninterp spec fn token_at(map: sourcemap::SourceMap, line: u32, column: u32) -> Option<
    (u32, u32, u32, Option<Seq<char>>),
>;

/// The generated (line, column) of each token of a parsed map, in the map's
/// token order.
pub uninterp spec fn generated_positions(map: sourcemap::SourceMap) -> Seq<(u32, u32)>;

/// Some token lies on generated line `line` at a column no greater than
/// `column`.
pub open spec fn covered(positions: Seq<(u32, u32)>, line: u32, column: u32) -> bool {
    exists|i: int| 0 <= i < positions.len() && #[trigger] positions[i].0 == line && positions[i].1 <= column
}

/// A found token read as plain values, its source name as characters.
pub open spec fn found_view(found: Option<(u32, u32, u32, Option<String>)>) -> Option<
    (u32, u32, u32, Option<Seq<char>>),
> {
    match found {
        Some((generated_line, line, column, source)) => Some(
            (generated_line, line, column, match source {
                Some(name) => Some(name@),
                None => None,
            }),
        ),
        None => None,
    }
}

/// Relies on `sourcemap::SourceMap::from_reader` and on the `Display` text of
/// `sourcemap::Error`: whether bytes decode, and the reason given when they do
/// not, depend on the bytes alone.
#[verifier::external_body]
pub(crate) fn decode_map(bytes: &[u8]) -> (r: Result<sourcemap::SourceMap, String>)
    ensures
        match r {
            Ok(_) => decode_outcome(bytes@) is Ok,
            Err(reason) => decode_outcome(bytes@) == Err::<(), Seq<char>>(reason@),
        },
{
    match sourcemap::SourceMap::from_reader(bytes) {
        Ok(map) => Ok(map),
        Err(e) => Err(e.to_string()),
    }
}

/// Relies on `sourcemap::SourceMap::get_token` and on the token's `get_dst`:
/// the generated position of the token at `index`, `None` past the last one.
/// The tokens are held in a `Vec`, so there are at most `isize::MAX` of them.
#[verifier::external_body]
pub(crate) fn token_position(map: &sourcemap::SourceMap, index: usize) -> (r: Option<(u32, u32)>)
    ensures
        match r {
            Some(p) => index < generated_positions(*map).len() && p == generated_positions(
                *map,
            )[index as int] && generated_positions(*map).len() <= isize::MAX,
            None => index >= generated_positions(*map).len(),
        },
{
    match map.get_token(index) {
        Some(token) => Some(token.get_dst()),
        None => None,
    }
}

/// Relies on `sourcemap::SourceMap::lookup_token` and on the token's
/// `get_dst_line`, `get_src_line`, `get_src_col` and `get_source`: the closest
/// token at or before the position, read as plain values. The lookup depends on
/// the map and the position alone. The map keeps its tokens sorted by generated
/// position, so where a token lies on the requested line at or before the
/// requested column, the closest one lies there too, and the column offset that
/// `lookup_token` computes for a range mapping cannot go below zero.
#[verifier::external_body]
pub(crate) fn find_token(map: &sourcemap::SourceMap, line: u32, column: u32) -> (r: Option<
    (u32, u32, u32, Option<String>),
>)
    requires
        covered(generated_positions(*map), line, column),
    ensures
        token_at(*map, line, column) == found_view(r),
{
    match map.lookup_token(line, column) {
        Some(token) => Some(
            (
                token.get_dst_line(),
                token.get_src_line(),
                token.get_src_col(),
                token.get_source().map(String::from),
            ),
        ),
        None => None,
    }
}

/// Whether some token of the map lies on generated line `line` at a column no
/// greater than `column`.
pub fn is_covered(map: &sourcemap::SourceMap, line: u32, column: u32) -> (r: bool)
    ensures
        r == covered(generated_positions(*map), line, column),
{
    let mut index: usize = 0;
    loop
        invariant
            index <= generated_positions(*map).len(),
            forall|i: int|
                0 <= i < index ==> !(#[trigger] generated_positions(*map)[i].0 == line
                    && generated_positions(*map)[i].1 <= column),
        decreases generated_positions(*map).len() - index,
    {
        match token_position(map, index) {
            Some((l, c)) => {
                if l == line && c <= column {
                    return true;
                }
                index = index + 1;
            },
            None => {
                return false;
            },
        }
    }
}

} // verus!

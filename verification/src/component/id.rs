//! The identifier synthesizer: turns a segment sequence, a source descriptor,
//! a build target and an optional scope into a complete identifier record.
use vstd::prelude::*;

use crate::component::shared::Target;
use crate::component::SourceInfo;
use crate::is_alnum_char;
use crate::is_ascii_digit_char;
use base64::Engine;
use std::collections::hash_map::DefaultHasher;
use std::hash::Hasher;
use vstd::std_specs::hash::DefaultHasherAdditionalSpecFns;
use vstd::utf8::encode_utf8;

verus! {

/// A synthesized component identifier: display name for debugging, exported
/// symbol name, generated module file name, stable fingerprint, and the
/// caller-supplied scope carried through unchanged.
#[derive(Debug, Clone, PartialEq, Eq, PartialOrd, Ord)]
pub struct Id {
    pub display_name: String,
    pub symbol_name: String,
    pub local_file_name: String,
    pub hash: String,
    pub scope: Option<String>,
}

/// Sanitization of a display name, read left to right: ASCII letters and
/// digits are kept; a run of any other characters becomes one `_`. The flag
/// records whether the previous character was already replaced.
pub open spec fn spec_sanitize_from(s: Seq<char>, after_replacement: bool) -> Seq<char>
    decreases s.len(),
{
    if s.len() == 0 {
        Seq::<char>::empty()
    } else if is_alnum_char(s[0]) {
        seq![s[0]] + spec_sanitize_from(s.drop_first(), false)
    } else if after_replacement {
        spec_sanitize_from(s.drop_first(), true)
    } else {
        seq!['_'] + spec_sanitize_from(s.drop_first(), true)
    }
}

/// The sanitized form of a string: every character that is not an ASCII
/// letter or digit is replaced, and each run of replacements collapses to a
/// single `_`.
pub open spec fn spec_sanitize(s: Seq<char>) -> Seq<char> {
    spec_sanitize_from(s, false)
}

/// A string in sanitized form: only ASCII letters, digits and `_`, with no
/// two `_` adjacent.
pub open spec fn spec_collapsed(s: Seq<char>) -> bool {
    &&& forall|i: int| 0 <= i < s.len() ==> is_alnum_char(#[trigger] s[i]) || s[i] == '_'
    &&& forall|i: int| 0 < i < s.len() ==> !(s[i - 1] == '_' && #[trigger] s[i] == '_')
}

proof fn lemma_sanitize_from_collapsed(s: Seq<char>, after_replacement: bool)
    ensures
        spec_collapsed(spec_sanitize_from(s, after_replacement)),
        after_replacement && spec_sanitize_from(s, after_replacement).len() > 0
            ==> spec_sanitize_from(s, after_replacement)[0] != '_',
    decreases s.len(),
{
    if s.len() == 0 {
    } else {
        let rest = s.drop_first();
        if is_alnum_char(s[0]) {
            lemma_sanitize_from_collapsed(rest, false);
            let t = spec_sanitize_from(rest, false);
            let out = seq![s[0]] + t;
            assert forall|i: int| 0 < i < out.len() implies !(out[i - 1] == '_'
                && #[trigger] out[i] == '_') by {
                if i > 1 {
                    assert(out[i - 1] == t[i - 2] && out[i] == t[i - 1]);
                }
            }
        } else if after_replacement {
            lemma_sanitize_from_collapsed(rest, true);
        } else {
            lemma_sanitize_from_collapsed(rest, true);
            let t = spec_sanitize_from(rest, true);
            let out = seq!['_'] + t;
            assert forall|i: int| 0 < i < out.len() implies !(out[i - 1] == '_'
                && #[trigger] out[i] == '_') by {
                if i == 1 {
                    assert(out[1] == t[0] && t[0] != '_');
                } else {
                    assert(out[i - 1] == t[i - 2] && out[i] == t[i - 1]);
                }
            }
        }
    }
}

proof fn lemma_sanitize_from_fixed(s: Seq<char>, after_replacement: bool)
    requires
        spec_collapsed(s),
        after_replacement && s.len() > 0 ==> s[0] != '_',
    ensures
        spec_sanitize_from(s, after_replacement) == s,
    decreases s.len(),
{
    if s.len() == 0 {
        assert(spec_sanitize_from(s, after_replacement) =~= s);
    } else {
        let rest = s.drop_first();
        assert(spec_collapsed(rest)) by {
            assert forall|i: int| 0 <= i < rest.len() implies is_alnum_char(#[trigger] rest[i])
                || rest[i] == '_' by {
                assert(rest[i] == s[i + 1]);
            }
            assert forall|i: int| 0 < i < rest.len() implies !(rest[i - 1] == '_'
                && #[trigger] rest[i] == '_') by {
                assert(rest[i - 1] == s[i] && rest[i] == s[i + 1]);
            }
        }
        if is_alnum_char(s[0]) {
            lemma_sanitize_from_fixed(rest, false);
            assert(spec_sanitize_from(s, after_replacement) =~= s);
        } else {
            assert(s[0] == '_');
            if rest.len() > 0 {
                assert(rest[0] == s[1]);
            }
            lemma_sanitize_from_fixed(rest, true);
            assert(spec_sanitize_from(s, after_replacement) =~= s);
        }
    }
}

/// Sanitization never emits two adjacent underscores: each run of disallowed
/// characters collapses to exactly one `_`, and every kept character is an
/// ASCII letter or digit.
pub proof fn lemma_sanitize_collapses_runs(s: Seq<char>)
    ensures
        spec_collapsed(spec_sanitize(s)),
{
    lemma_sanitize_from_collapsed(s, false);
}

/// Sanitization is idempotent: sanitizing an already sanitized string leaves
/// it unchanged.
pub proof fn lemma_sanitize_idempotent(s: Seq<char>)
    ensures
        spec_sanitize(spec_sanitize(s)) == spec_sanitize(s),
{
    lemma_sanitize_from_collapsed(s, false);
    lemma_sanitize_from_fixed(spec_sanitize(s), false);
}

/// The URL-safe base64 alphabet: values 0 through 61 map to `A`-`Z`,
/// `a`-`z` and `0`-`9`; 62 and 63 map to `-` and `_`.
pub open spec fn spec_b64_char(v: u64) -> char {
    if v < 26 {
        ((65 + v) as u8) as char
    } else if v < 52 {
        ((97 + (v - 26)) as u8) as char
    } else if v < 62 {
        ((48 + (v - 52)) as u8) as char
    } else if v == 62 {
        '-'
    } else {
        '_'
    }
}

/// The eleven-character URL-safe base64 encoding, without padding, of the
/// eight little-endian bytes of `h`: six bits per character, read in byte
/// order from the high bit of each byte down, the last character carrying
/// the final four bits padded with zeros.
pub open spec fn spec_b64_le8(h: u64) -> Seq<char> {
    let b0 = h & 0xff;
    let b1 = (h >> 8) & 0xff;
    let b2 = (h >> 16) & 0xff;
    let b3 = (h >> 24) & 0xff;
    let b4 = (h >> 32) & 0xff;
    let b5 = (h >> 40) & 0xff;
    let b6 = (h >> 48) & 0xff;
    let b7 = (h >> 56) & 0xff;
    seq![
        spec_b64_char(b0 >> 2),
        spec_b64_char(((b0 & 0x03) << 4) | (b1 >> 4)),
        spec_b64_char(((b1 & 0x0f) << 2) | (b2 >> 6)),
        spec_b64_char(b2 & 0x3f),
        spec_b64_char(b3 >> 2),
        spec_b64_char(((b3 & 0x03) << 4) | (b4 >> 4)),
        spec_b64_char(((b4 & 0x0f) << 2) | (b5 >> 6)),
        spec_b64_char(b5 & 0x3f),
        spec_b64_char(b6 >> 2),
        spec_b64_char(((b6 & 0x03) << 4) | (b7 >> 4)),
        spec_b64_char((b7 & 0x0f) << 2),
    ]
}

/// `-` and `_` replaced by `0` throughout, which makes an encoded
/// fingerprint safe to embed in identifiers and file names.
pub open spec fn spec_zero_subst(s: Seq<char>) -> Seq<char> {
    s.map_values(|c: char| if c == '-' || c == '_' { '0' } else { c })
}

/// The view of an optional scope string.
pub open spec fn spec_opt_text(o: Option<String>) -> Option<Seq<char>> {
    match o {
        Some(s) => Some(s@),
        None => None,
    }
}

/// The byte slices fed to the fingerprint hasher, in this order: the scope
/// when present, then the normalized path, then the sanitized display name,
/// each as its UTF-8 bytes.
pub open spec fn spec_hash_writes(scope: Option<Seq<char>>, path: Seq<char>, name: Seq<char>) -> Seq<
    Seq<u8>,
> {
    match scope {
        Some(sc) => seq![encode_utf8(sc), encode_utf8(path), encode_utf8(name)],
        None => seq![encode_utf8(path), encode_utf8(name)],
    }
}

/// The complete fingerprint string: the 64-bit hash of the writes, encoded
/// URL-safe base64 without padding, with `-` and `_` replaced by `0`.
pub open spec fn spec_fingerprint(scope: Option<Seq<char>>, path: Seq<char>, name: Seq<char>) -> Seq<
    char,
> {
    spec_zero_subst(spec_b64_le8(DefaultHasher::spec_finish(spec_hash_writes(scope, path, name))))
}

/// A scope always changes what is hashed: the write sequences with and
/// without a scope differ. This speaks only of the hasher's input; the
/// 64-bit fingerprint itself is not collision-free.
pub proof fn lemma_scope_alters_hash_writes(scope: Seq<char>, path: Seq<char>, name: Seq<char>)
    ensures
        spec_hash_writes(Some(scope), path, name) != spec_hash_writes(None, path, name),
{
    assert(spec_hash_writes(Some(scope), path, name).len() == 3);
    assert(spec_hash_writes(None, path, name).len() == 2);
}

/// Relies on the `base64` crate's `URL_SAFE_NO_PAD` engine: it encodes the
/// eight little-endian bytes of `h` with the RFC 4648 URL-safe alphabet
/// (`A`-`Z`, `a`-`z`, `0`-`9`, `-`, `_`), without padding, eleven characters
/// in all, six bits per character taken in byte order from the high bit down.
#[verifier::external_body]
fn encode_fingerprint(h: u64) -> (r: String)
    ensures
        r@ == spec_b64_le8(h),
{
    base64::engine::general_purpose::URL_SAFE_NO_PAD.encode(h.to_le_bytes())
}

/// Replaces `-` and `_` with `0` so the fingerprint can stand in identifiers.
fn zero_subst(input: &str) -> (r: String)
    ensures
        r@ == spec_zero_subst(input@),
{
    let n = input.unicode_len();
    let mut result = String::new();
    let mut i: usize = 0;
    proof {
        assert(result@ =~= spec_zero_subst(input@.take(0)));
    }
    while i < n
        invariant
            0 <= i <= n,
            n == input@.len(),
            result@ == spec_zero_subst(input@.take(i as int)),
        decreases n - i,
    {
        let c = input.get_char(i);
        if c == '-' || c == '_' {
            let zero = "0";
            proof {
                reveal_strlit("0");
                assert(zero@ =~= seq!['0']);
            }
            result.append(zero);
        } else {
            let piece = input.substring_char(i, i + 1);
            proof {
                assert(piece@ =~= seq![input@[i as int]]);
            }
            result.append(piece);
        }
        proof {
            assert(result@ =~= spec_zero_subst(input@.take(i as int + 1)));
        }
        i = i + 1;
    }
    proof {
        assert(input@.take(n as int) =~= input@);
    }
    result
}

/// The views of a sequence of segment strings.
pub open spec fn spec_seg_views(segs: Seq<String>) -> Seq<Seq<char>> {
    segs.map_values(|s: String| s@)
}

/// One step of display-name assembly: segments are joined with `_`, and a
/// segment that would start the name with a decimal digit is prefixed with
/// `_`, because a bare digit-leading name is not a usable identifier.
pub open spec fn spec_join_step(acc: Seq<char>, seg: Seq<char>) -> Seq<char> {
    if acc.len() == 0 && seg.len() > 0 && is_ascii_digit_char(seg[0]) {
        seq!['_'] + seg
    } else if acc.len() == 0 {
        seg
    } else {
        acc + seq!['_'] + seg
    }
}

/// The display name assembled from the first `n` segments, left to right.
pub open spec fn spec_join_prefix(segs: Seq<Seq<char>>, n: int) -> Seq<char>
    decreases n,
{
    if n <= 0 {
        Seq::<char>::empty()
    } else {
        spec_join_step(spec_join_prefix(segs, n - 1), segs[n - 1])
    }
}

/// The raw display name of a whole segment sequence.
pub open spec fn spec_joined(segs: Seq<Seq<char>>) -> Seq<char> {
    spec_join_prefix(segs, segs.len() as int)
}

/// The sanitized display name a segment sequence contributes to an `Id`.
pub open spec fn spec_display_base(segs: Seq<Seq<char>>) -> Seq<char> {
    spec_sanitize(spec_joined(segs))
}

/// A relative path with a leading `./` stripped; unchanged otherwise.
pub open spec fn spec_normalized_path(p: Seq<char>) -> Seq<char> {
    if p.len() >= 2 && p[0] == '.' && p[1] == '/' {
        p.skip(2)
    } else {
        p
    }
}

/// The symbol-name format by target: a readable `{display}_{hash}` for the
/// development flavors, an anonymous `s_{hash}` for the shipped ones.
pub open spec fn spec_symbol_name(target: Target, display: Seq<char>, hash: Seq<char>) -> Seq<
    char,
> {
    match target {
        Target::Dev | Target::Test => display + seq!['_'] + hash,
        Target::Lib | Target::Prod => seq!['s', '_'] + hash,
    }
}

/// The fingerprint of an `Id` as a function of the scope, the raw relative
/// path and the segment views.
pub open spec fn spec_id_hash(scope: Option<Seq<char>>, rel_path: Seq<char>, segs: Seq<Seq<char>>) -> Seq<
    char,
> {
    spec_fingerprint(scope, spec_normalized_path(rel_path), spec_display_base(segs))
}

proof fn lemma_join_prefix_digit(segs: Seq<Seq<char>>, n: int)
    requires
        segs.len() > 0,
        segs[0].len() > 0,
        is_ascii_digit_char(segs[0][0]),
        1 <= n <= segs.len(),
    ensures
        spec_join_prefix(segs, n).len() >= 2,
        spec_join_prefix(segs, n)[0] == '_',
        spec_join_prefix(segs, n)[1] == segs[0][0],
    decreases n,
{
    if n == 1 {
        assert(spec_join_prefix(segs, 0).len() == 0);
        assert(spec_join_prefix(segs, 1) =~= seq!['_'] + segs[0]);
    } else {
        lemma_join_prefix_digit(segs, n - 1);
    }
}

/// A segment sequence whose first segment starts with a decimal digit yields
/// a display name that starts with `_` followed by that digit, never a bare
/// digit-leading name.
pub proof fn lemma_digit_leading_guard(segs: Seq<Seq<char>>)
    requires
        segs.len() > 0,
        segs[0].len() > 0,
        is_ascii_digit_char(segs[0][0]),
    ensures
        spec_display_base(segs).len() >= 2,
        spec_display_base(segs)[0] == '_',
        spec_display_base(segs)[1] == segs[0][0],
{
    lemma_join_prefix_digit(segs, segs.len() as int);
    let j = spec_joined(segs);
    let rest = j.drop_first();
    assert(rest[0] == j[1]);
    assert(spec_sanitize_from(j, false) == seq!['_'] + spec_sanitize_from(rest, true));
    assert(spec_sanitize_from(rest, true) == seq![rest[0]] + spec_sanitize_from(
        rest.drop_first(),
        false,
    ));
    assert(spec_display_base(segs)[0] == '_');
    assert(spec_display_base(segs)[1] == j[1]);
}

/// For one display name and one fingerprint, the development symbol format
/// and the shipped one never coincide, except for the display name `s`
/// (whose readable symbol is literally `s_{hash}` too). `Dev` and `Test`
/// share one format, `Lib` and `Prod` the other.
pub proof fn lemma_symbol_families_differ(
    dev_like: Target,
    prod_like: Target,
    display: Seq<char>,
    hash: Seq<char>,
)
    requires
        dev_like is Dev || dev_like is Test,
        prod_like is Lib || prod_like is Prod,
        display.len() > 0,
        display != seq!['s'],
    ensures
        spec_symbol_name(dev_like, display, hash) != spec_symbol_name(prod_like, display, hash),
{
    let a = display + seq!['_'] + hash;
    let b = seq!['s', '_'] + hash;
    if display.len() == 1 {
        assert(display[0] != 's') by {
            if display[0] == 's' {
                assert(display =~= seq!['s']);
            }
        }
        assert(a[0] == display[0] && b[0] == 's');
        assert(a != b);
    } else {
        assert(a.len() != b.len());
    }
}

/// What synthesis promises of a record, over the views of its inputs: every
/// field is pinned down by the file name, the relative path, the segment
/// texts, the target and the scope, and by nothing else.
pub open spec fn spec_id_matches(
    r: Id,
    file_name: Seq<char>,
    rel_path: Seq<char>,
    segs: Seq<Seq<char>>,
    target: Target,
    scope: Option<Seq<char>>,
) -> bool {
    &&& r.display_name@ == file_name + seq!['_'] + spec_display_base(segs)
    &&& r.hash@ == spec_id_hash(scope, rel_path, segs)
    &&& r.symbol_name@ == spec_symbol_name(
        target,
        spec_display_base(segs),
        spec_id_hash(scope, rel_path, segs),
    )
    &&& r.local_file_name@ == rel_path + seq!['_'] + spec_symbol_name(
        target,
        spec_display_base(segs),
        spec_id_hash(scope, rel_path, segs),
    )
    &&& spec_opt_text(r.scope) == scope
}

/// Synthesis is deterministic: two records tied by the synthesis contract to
/// the same input views agree on every field.
pub proof fn lemma_synthesis_deterministic(
    a: Id,
    b: Id,
    file_name: Seq<char>,
    rel_path: Seq<char>,
    segs: Seq<Seq<char>>,
    target: Target,
    scope: Option<Seq<char>>,
)
    requires
        spec_id_matches(a, file_name, rel_path, segs, target, scope),
        spec_id_matches(b, file_name, rel_path, segs, target, scope),
    ensures
        a.display_name@ == b.display_name@,
        a.symbol_name@ == b.symbol_name@,
        a.local_file_name@ == b.local_file_name@,
        a.hash@ == b.hash@,
        spec_opt_text(a.scope) == spec_opt_text(b.scope),
{
}

impl Id {
    /// Replaces every character that is not an ASCII letter or digit with
    /// `_`, collapsing runs so that no two `_` are ever emitted in a row.
    pub fn sanitize(input: &str) -> (r: String)
        ensures
            r@ == spec_sanitize(input@),
    {
        let n = input.unicode_len();
        let mut result = String::new();
        let mut after_replacement = false;
        let mut i: usize = 0;
        proof {
            assert(input@.skip(0) =~= input@);
            assert(result@ + spec_sanitize_from(input@, false) =~= spec_sanitize_from(
                input@,
                false,
            ));
        }
        while i < n
            invariant
                0 <= i <= n,
                n == input@.len(),
                spec_sanitize(input@) == result@ + spec_sanitize_from(
                    input@.skip(i as int),
                    after_replacement,
                ),
            decreases n - i,
        {
            let ghost pre = result@;
            let ghost tail = input@.skip(i as int);
            let c = input.get_char(i);
            let u = c as u32;
            proof {
                assert(tail[0] == input@[i as int]);
                assert(tail.drop_first() =~= input@.skip(i as int + 1));
            }
            if (48 <= u && u <= 57) || (65 <= u && u <= 90) || (97 <= u && u <= 122) {
                let piece = input.substring_char(i, i + 1);
                proof {
                    assert(piece@ =~= seq![input@[i as int]]);
                }
                result.append(piece);
                proof {
                    assert(result@ + spec_sanitize_from(input@.skip(i as int + 1), false)
                        =~= pre + spec_sanitize_from(tail, after_replacement));
                }
                after_replacement = false;
            } else if after_replacement {
                // Nothing appended: the run already produced its underscore.
            } else {
                let underscore = "_";
                proof {
                    reveal_strlit("_");
                    assert(underscore@ =~= seq!['_']);
                }
                result.append(underscore);
                proof {
                    assert(result@ + spec_sanitize_from(input@.skip(i as int + 1), true)
                        =~= pre + spec_sanitize_from(tail, after_replacement));
                }
                after_replacement = true;
            }
            i = i + 1;
        }
        proof {
            assert(input@.skip(n as int) =~= Seq::<char>::empty());
        }
        result
    }

    /// Computes the fingerprint: a streaming 64-bit hash over the scope (when
    /// present), the normalized path and the display name, encoded URL-safe
    /// base64 without padding, with `-` and `_` replaced by `0`.
    pub fn calculate_hash(local_file_name: &str, display_name: &str, scope: &Option<String>) -> (r:
        String)
        ensures
            r@ == spec_fingerprint(spec_opt_text(*scope), local_file_name@, display_name@),
    {
        let mut hasher = DefaultHasher::new();
        match scope {
            Some(sc) => hasher.write(sc.as_str().as_bytes()),
            None => {},
        }
        hasher.write(local_file_name.as_bytes());
        hasher.write(display_name.as_bytes());
        proof {
            assert(hasher@ =~= spec_hash_writes(
                spec_opt_text(*scope),
                local_file_name@,
                display_name@,
            ));
        }
        let h = hasher.finish();
        let encoded = encode_fingerprint(h);
        zero_subst(encoded.as_str())
    }

    /// Synthesizes the complete identifier record for one capture boundary.
    /// Total and deterministic: every field is a function of the argument
    /// values alone, so identical inputs always yield an identical record.
    pub fn new(
        source_info: &SourceInfo,
        segments: &Vec<String>,
        target: &Target,
        scope: &Option<String>,
    ) -> (r: Id)
        ensures
            spec_id_matches(
                r,
                source_info.file_name@,
                source_info.rel_path@,
                spec_seg_views(segments@),
                *target,
                spec_opt_text(*scope),
            ),
    {
        let ghost views = spec_seg_views(segments@);
        let mut display = String::new();
        let mut i: usize = 0;
        while i < segments.len()
            invariant
                0 <= i <= segments@.len(),
                views == spec_seg_views(segments@),
                display@ == spec_join_prefix(views, i as int),
            decreases segments@.len() - i,
        {
            let ghost acc = display@;
            let seg: &String = &segments[i];
            proof {
                assert(views[i as int] == seg@);
            }
            let seg_len = seg.as_str().unicode_len();
            let first_is_digit = if seg_len > 0 {
                let c0 = seg.as_str().get_char(0) as u32;
                48 <= c0 && c0 <= 57
            } else {
                false
            };
            let underscore = "_";
            proof {
                reveal_strlit("_");
                assert(underscore@ =~= seq!['_']);
            }
            if display.as_str().unicode_len() == 0 && first_is_digit {
                let mut d = String::from_str(underscore);
                d.append(seg.as_str());
                display = d;
                proof {
                    assert(acc.len() == 0);
                    assert(display@ =~= spec_join_step(acc, seg@));
                }
            } else if display.as_str().unicode_len() == 0 {
                display = seg.clone();
                proof {
                    assert(acc.len() == 0);
                    assert(display@ =~= spec_join_step(acc, seg@));
                }
            } else {
                display.append(underscore);
                display.append(seg.as_str());
                proof {
                    assert(display@ =~= acc + seq!['_'] + seg@);
                    assert(display@ =~= spec_join_step(acc, seg@));
                }
            }
            i = i + 1;
        }
        let sanitized = Self::sanitize(display.as_str());

        let rel = source_info.rel_path.as_str();
        let n = rel.unicode_len();
        let normalized: &str = if n >= 2 && rel.get_char(0) == '.' && rel.get_char(1) == '/' {
            let stripped = rel.substring_char(2, n);
            proof {
                assert(stripped@ =~= spec_normalized_path(rel@));
            }
            stripped
        } else {
            rel
        };
        let hash64 = Self::calculate_hash(normalized, sanitized.as_str(), scope);

        let underscore = "_";
        proof {
            reveal_strlit("_");
            assert(underscore@ =~= seq!['_']);
        }
        let symbol_name = match target {
            Target::Dev | Target::Test => {
                let mut s = String::from_str(sanitized.as_str());
                s.append(underscore);
                s.append(hash64.as_str());
                proof {
                    assert(s@ =~= sanitized@ + seq!['_'] + hash64@);
                }
                s
            },
            Target::Lib | Target::Prod => {
                let prefix = "s_";
                proof {
                    reveal_strlit("s_");
                    assert(prefix@ =~= seq!['s', '_']);
                }
                let mut s = String::from_str(prefix);
                s.append(hash64.as_str());
                proof {
                    assert(s@ =~= seq!['s', '_'] + hash64@);
                }
                s
            },
        };

        let mut display_name = String::from_str(source_info.file_name.as_str());
        display_name.append(underscore);
        display_name.append(sanitized.as_str());
        proof {
            assert(display_name@ =~= source_info.file_name@ + seq!['_'] + sanitized@);
        }

        let mut local_file_name = String::from_str(rel);
        local_file_name.append(underscore);
        local_file_name.append(symbol_name.as_str());
        proof {
            assert(local_file_name@ =~= source_info.rel_path@ + seq!['_'] + symbol_name@);
        }

        let scope_out = match scope {
            Some(s) => Some(s.clone()),
            None => None,
        };

        Id {
            display_name,
            symbol_name,
            local_file_name,
            hash: hash64,
            scope: scope_out,
        }
    }
}

} // verus!

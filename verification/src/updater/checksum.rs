//! Checking a download against the published checksums.

use sha2::Digest;
use vstd::prelude::*;

use crate::text;
use crate::text_laws;
use crate::text::{chars_of, lines, same_text, to_ascii_lowercase, trim_start_of, words};
use crate::updater::{Fault, UpdateError};

verus! {

/// The first line at or after `i` that gives a checksum of an asset, or -1: its second word is the
/// asset's name, which may have stars before it.
pub open spec fn checksum_row(lines: Seq<Seq<char>>, asset: Seq<char>, i: int) -> int
    decreases lines.len() - i,
{
    if i >= lines.len() {
        -1
    } else if text::words_of(lines[i]).len() >= 2 && text::trimmed_start_of(
        text::words_of(lines[i])[1],
        '*',
    ) == asset {
        i
    } else {
        checksum_row(lines, asset, i + 1)
    }
}

/// Whether a character is a hexadecimal digit.
pub open spec fn is_hex(c: char) -> bool {
    ||| '0' <= c <= '9'
    ||| 'a' <= c <= 'f'
    ||| 'A' <= c <= 'F'
}

/// Whether a text has the form of a SHA-256 checksum.
pub open spec fn is_checksum(s: Seq<char>) -> bool {
    s.len() == 64 && forall|i: int| 0 <= i < s.len() ==> is_hex(#[trigger] s[i])
}

/// The checksum of an asset, in lower case, where a valid one is given.
pub open spec fn checksum_of(checksums: Seq<char>, asset: Seq<char>) -> Option<Seq<char>> {
    let all = text::lines_of(checksums);
    let i = checksum_row(all, asset, 0);
    if i >= 0 && is_checksum(text::lowered(text::words_of(all[i])[0])) {
        Some(text::lowered(text::words_of(all[i])[0]))
    } else {
        None
    }
}

/// Tells whether a text has the form of a SHA-256 checksum.
fn check_form(s: &str) -> (r: bool)
    ensures
        r == is_checksum(s@),
{
    let v: Vec<char> = chars_of(s);
    if v.len() != 64 {
        return false;
    }
    let mut i: usize = 0;
    while i < v.len()
        invariant
            i <= v@.len(),
            v@ == s@,
            v@.len() == 64,
            forall|j: int| 0 <= j < i ==> is_hex(#[trigger] v@[j]),
        decreases v@.len() - i,
    {
        let c: char = v[i];
        let hex: bool = ('0' <= c && c <= '9') || ('a' <= c && c <= 'f') || ('A' <= c && c <= 'F');
        if !hex {
            assert(!is_hex(s@[i as int]));
            return false;
        }
        i = i + 1;
    }
    true
}

/// Gives the checksum of an asset.
pub fn checksum_for(checksums: &str, asset_name: &str) -> (r: Result<String, UpdateError>)
    ensures
        match checksum_of(checksums@, asset_name@) {
            Some(hash) => r matches Ok(s) && s@ == hash,
            None => r matches Err(e) && e@ == Fault::ChecksumMissing,
        },
{
    let all: Vec<String> = lines(checksums);
    let ghost every = text::texts(all@);
    let mut i: usize = 0;
    while i < all.len()
        invariant
            i <= all@.len(),
            every == text::texts(all@),
            every == text::lines_of(checksums@),
            checksum_row(every, asset_name@, 0) == checksum_row(every, asset_name@, i as int),
        decreases all@.len() - i,
    {
        assert(every[i as int] == all@[i as int]@);
        let fields: Vec<String> = words(all[i].as_str());
        let ghost parts = text::texts(fields@);
        assert(parts.len() == fields@.len());
        if fields.len() >= 2 {
            assert(parts[0] == fields@[0]@ && parts[1] == fields@[1]@);
            let name: String = trim_start_of(fields[1].as_str(), '*');
            if same_text(name.as_str(), asset_name) {
                let hash: String = to_ascii_lowercase(fields[0].as_str());
                if check_form(hash.as_str()) {
                    return Ok(hash);
                }
                return Err(UpdateError::ChecksumMissing);
            }
        }
        i = i + 1;
    }
    Err(UpdateError::ChecksumMissing)
}

/// The SHA-256 digest of bytes.
pub uninterp spec fn sha256(bytes: Seq<u8>) -> Seq<u8>;

/// Computes a digest with `sha2::Sha256::digest`. The contract claims that the digest is a function
/// of the bytes, and that it has thirty-two bytes.
#[verifier::external_body]
fn digest(bytes: &Vec<u8>) -> (r: Vec<u8>)
    ensures
        r@ == sha256(bytes@),
        r@.len() == 32,
{
    sha2::Sha256::digest(bytes).to_vec()
}

/// Bytes in hexadecimal notation: two lower-case digits for each.
pub open spec fn hex_text(bytes: Seq<u8>) -> Seq<char>
    decreases bytes.len(),
{
    if bytes.len() == 0 {
        Seq::empty()
    } else {
        hex_text(bytes.drop_last()) + text::hexadecimal(bytes.last() as nat, 2)
    }
}

/// Writes bytes with `hex::encode`. The contract claims that each byte gives two lower-case
/// hexadecimal digits, in order.
#[verifier::external_body]
fn encode_hex(bytes: &Vec<u8>) -> (r: String)
    ensures
        r@ == hex_text(bytes@),
{
    hex::encode(bytes)
}

/// Accepts a digest that is the expected one, whatever the case of the letters.
pub fn check_digest(digest: &Vec<u8>, expected: &str) -> (r: Result<(), UpdateError>)
    ensures
        if hex_text(digest@) == text::lowered(expected@) {
            r is Ok
        } else {
            r matches Err(e) && e@ == Fault::ChecksumMismatch
        },
{
    let own: String = encode_hex(digest);
    let wanted: String = to_ascii_lowercase(expected);
    if same_text(own.as_str(), wanted.as_str()) {
        Ok(())
    } else {
        Err(UpdateError::ChecksumMismatch)
    }
}

/// Accepts content with the expected checksum.
pub fn verify_sha256(content: &Vec<u8>, expected: &str) -> (r: Result<(), UpdateError>)
    ensures
        if hex_text(sha256(content@)) == text::lowered(expected@) {
            r is Ok
        } else {
            r matches Err(e) && e@ == Fault::ChecksumMismatch
        },
{
    let own: Vec<u8> = digest(content);
    check_digest(&own, expected)
}

proof fn lemma_hex_digits(n: nat, width: nat)
    ensures
        text::hexadecimal(n, width).len() == width,
        forall|i: int|
            0 <= i < width ==> is_hex(#[trigger] text::hexadecimal(n, width)[i]) && text::lower(
                text::hexadecimal(n, width)[i],
            ) == text::hexadecimal(n, width)[i],
    decreases width,
{
    if width > 0 {
        lemma_hex_digits(n / 16, (width - 1) as nat);
    }
}

proof fn lemma_hex_text(bytes: Seq<u8>)
    ensures
        hex_text(bytes).len() == 2 * bytes.len(),
        forall|i: int|
            0 <= i < hex_text(bytes).len() ==> is_hex(#[trigger] hex_text(bytes)[i])
                && text::lower(hex_text(bytes)[i]) == hex_text(bytes)[i],
    decreases bytes.len(),
{
    if bytes.len() > 0 {
        lemma_hex_text(bytes.drop_last());
        lemma_hex_digits(bytes.last() as nat, 2);
    }
}

/// The digest of any content, in hexadecimal notation, has the form of a checksum, and is the one
/// that its own verification expects.
pub proof fn law_every_digest_is_a_checksum(digest: Seq<u8>)
    requires
        digest.len() == 32,
    ensures
        is_checksum(hex_text(digest)),
        text::lowered(hex_text(digest)) == hex_text(digest),
{
    lemma_hex_text(digest);
    assert(text::lowered(hex_text(digest)) =~= hex_text(digest));
}

/// What a line of a checksum file says.
pub struct Row {
    pub sum: Seq<char>,
    pub gap: Seq<char>,
    /// Whether a star marks the file as binary.
    pub star: bool,
    pub name: Seq<char>,
}

/// A line as it is written: the checksum, a gap, the star where there is one, and the name.
pub open spec fn written(row: Row) -> Seq<char> {
    row.sum + row.gap + (if row.star {
        seq!['*']
    } else {
        Seq::empty()
    }) + row.name
}

/// Whether a line can be told apart into what it says.
pub open spec fn is_row(row: Row) -> bool {
    &&& row.sum.len() > 0 && text_laws::no_white(row.sum)
    &&& row.gap.len() > 0 && text_laws::all_white(row.gap)
    &&& row.name.len() > 0 && text_laws::no_white(row.name) && row.name[0] != '*'
    &&& text_laws::is_line(written(row))
}

/// The lines of a checksum file.
pub open spec fn written_rows(rows: Seq<Row>) -> Seq<Seq<char>> {
    Seq::new(rows.len(), |i: int| written(rows[i]))
}

/// Whether a text is 64 hexadecimal digits, of either case.
pub open spec fn is_hex_digest(s: Seq<char>) -> bool {
    s.len() == 64 && forall|i: int|
        0 <= i < s.len() ==> {
            let c = #[trigger] s[i];
            ('0' <= c && c <= '9') || ('a' <= c && c <= 'f') || ('A' <= c && c <= 'F')
        }
}

proof fn lemma_row(row: Row)
    requires
        is_row(row),
    ensures
        text::words_of(written(row)).len() == 2,
        text::words_of(written(row))[0] == row.sum,
        text::trimmed_start_of(text::words_of(written(row))[1], '*') == row.name,
        is_checksum(text::lowered(row.sum)) == is_hex_digest(row.sum),
{
    let star = if row.star {
        seq!['*']
    } else {
        Seq::<char>::empty()
    };
    let marked = star + row.name;
    let none = Seq::<char>::empty();
    assert(text_laws::no_white(marked)) by {
        assert(!text::is_white_space('*'));
        assert forall|i: int| 0 <= i < marked.len() implies !text::is_white_space(
            #[trigger] marked[i],
        ) by {
            if i >= star.len() {
                assert(marked[i] == row.name[i - star.len()]);
            }
        }
    }
    text_laws::law_words_stand_between_white_space(row.sum + row.gap, marked, none);
    text_laws::law_words_stand_between_white_space(none, row.sum, row.gap);
    assert(row.sum + row.gap + marked + none =~= written(row));
    assert(none + row.sum + row.gap =~= row.sum + row.gap);
    text_laws::lemma_no_words(none);
    assert(text::words_of(none) =~= Seq::empty());
    assert(text::words_of(row.gap) =~= Seq::empty());
    assert(text::words_of(written(row)) =~= seq![row.sum, marked]);
    if row.star {
        assert(marked.skip(1) =~= row.name);
        assert(text::trimmed_start_of(row.name, '*') == row.name);
        assert(marked[0] == '*');
        assert(text::trimmed_start_of(marked, '*') == text::trimmed_start_of(marked.skip(1), '*'));
    } else {
        assert(marked =~= row.name);
    }
    let low = text::lowered(row.sum);
    if is_checksum(low) {
        assert forall|i: int| 0 <= i < row.sum.len() implies is_hex(#[trigger] row.sum[i]) by {
            assert(is_hex(low[i]));
        }
    }
    if is_hex_digest(row.sum) {
        assert forall|i: int| 0 <= i < low.len() implies is_hex(#[trigger] low[i]) by {
            assert(is_hex(row.sum[i]));
        }
    }
}

proof fn lemma_row_found(rows: Seq<Row>, asset: Seq<char>, from: int, at: int)
    requires
        forall|j: int| 0 <= j < rows.len() ==> is_row(#[trigger] rows[j]),
        0 <= from <= at <= rows.len(),
        forall|j: int| from <= j < at ==> (#[trigger] rows[j]).name != asset,
        at < rows.len() ==> rows[at].name == asset,
    ensures
        checksum_row(written_rows(rows), asset, from) == (if at < rows.len() {
            at
        } else {
            -1
        }),
    decreases at - from,
{
    if from < rows.len() {
        lemma_row(rows[from]);
        assert(written_rows(rows)[from] == written(rows[from]));
        if from < at {
            lemma_row_found(rows, asset, from + 1, at);
        }
    }
}

/// The checksum of an asset is what stands on the first line that names it, with or without a star,
/// in lower case. There is none where no line names it, or where 64 hexadecimal digits do not stand
/// there.
pub proof fn law_a_checksum_stands_before_its_name(rows: Seq<Row>, asset: Seq<char>, at: int)
    requires
        forall|j: int| 0 <= j < rows.len() ==> is_row(#[trigger] rows[j]),
        0 <= at <= rows.len(),
        forall|j: int| 0 <= j < at ==> (#[trigger] rows[j]).name != asset,
        at < rows.len() ==> rows[at].name == asset,
    ensures
        checksum_of(text_laws::ended(written_rows(rows), seq!['\n']), asset) == (if at < rows.len()
            && is_hex_digest(rows[at].sum) {
            Some(text::lowered(rows[at].sum))
        } else {
            None
        }),
{
    let lines = written_rows(rows);
    assert(text_laws::are_lines(lines)) by {
        assert forall|j: int| 0 <= j < lines.len() implies text_laws::is_line(#[trigger] lines[j]) by {
            assert(is_row(rows[j]));
        }
    }
    text_laws::law_lines_are_what_stands_between_their_endings(lines, seq!['x'], seq!['\n']);
    lemma_row_found(rows, asset, 0, at);
    if at < rows.len() {
        lemma_row(rows[at]);
        assert(lines[at] == written(rows[at]));
    }
}

} // verus!

//! Packed text: 16-bit words of three 5-bit z-characters each, which an
//! alphabet-shifting state machine turns into ZSCII codes and then into
//! characters.

use vstd::prelude::*;
use crate::bytes::word_at;
use crate::error::ZError;

verus! {

/// The first z-character of a word: bits 14 to 10.
pub open spec fn first_zchar(word: int) -> u8 {
    ((word / 0x400) % 0x20) as u8
}

/// The second z-character of a word: bits 9 to 5.
pub open spec fn second_zchar(word: int) -> u8 {
    ((word / 0x20) % 0x20) as u8
}

/// The third z-character of a word: bits 4 to 0.
pub open spec fn third_zchar(word: int) -> u8 {
    (word % 0x20) as u8
}

/// Whether a word is marked as the last of its string: bit 15.
pub open spec fn is_last_word(word: int) -> bool {
    word >= 0x8000
}

/// The z-characters that `buf` holds from position `at` on, where `at` is
/// the start of a word.
///
/// Each word gives three. The string ends with the word that is marked as
/// the last, or with the bytes. A single byte left over at the end still
/// gives the one z-character that lies wholly inside it.
pub open spec fn zchars_from(buf: Seq<u8>, at: int) -> Seq<u8>
    decreases buf.len() - at,
{
    if at < 0 || at >= buf.len() {
        Seq::empty()
    } else if at + 1 >= buf.len() {
        seq![first_zchar(buf[at] as int * 0x100)]
    } else {
        let word = word_at(buf, at);
        let here = seq![first_zchar(word), second_zchar(word), third_zchar(word)];
        if is_last_word(word) {
            here
        } else {
            here + zchars_from(buf, at + 2)
        }
    }
}

/// The z-characters of a packed string.
pub open spec fn zchars(buf: Seq<u8>) -> Seq<u8> {
    zchars_from(buf, 0)
}

/// Every z-character is a 5-bit value.
pub proof fn lemma_zchars_are_five_bits(buf: Seq<u8>, at: int)
    ensures
        forall|k: int| 0 <= k < zchars_from(buf, at).len() ==> #[trigger] zchars_from(buf, at)[k] < 32,
    decreases buf.len() - at,
{
    if 0 <= at && at + 1 < buf.len() && !is_last_word(word_at(buf, at)) {
        lemma_zchars_are_five_bits(buf, at + 2);
        let rest = zchars_from(buf, at + 2);
        assert forall|k: int| 0 <= k < zchars_from(buf, at).len() implies #[trigger] zchars_from(
            buf,
            at,
        )[k] < 32 by {
            if k >= 3 {
                assert(zchars_from(buf, at)[k] == rest[k - 3]);
            }
        }
    }
}

/// A one-shot reader of the z-characters of a packed string.
pub struct ZCharIter<'a> {
    buf: &'a [u8],
    /// Where the current word starts.
    word_idx: usize,
    /// Which z-character of the current word comes next: 0, 1 or 2.
    sub_idx: u8,
    done: bool,
}

impl<'a> ZCharIter<'a> {
    /// What holds of every reader.
    pub closed spec fn wf(&self) -> bool {
        &&& self.sub_idx < 3
        &&& !self.done ==> self.word_idx < self.buf@.len()
        &&& !self.done && self.sub_idx == 2 ==> self.word_idx + 1 < self.buf@.len()
    }

    /// The z-characters that are still to come.
    pub closed spec fn remaining(&self) -> Seq<u8> {
        if self.done {
            Seq::empty()
        } else {
            zchars_from(self.buf@, self.word_idx as int).skip(self.sub_idx as int)
        }
    }

    /// A reader at the start of the packed string `buf`.
    pub fn new(buf: &'a [u8]) -> (iter: ZCharIter<'a>)
        ensures
            iter.wf(),
            iter.remaining() == zchars(buf@),
    {
        ZCharIter { buf, word_idx: 0, sub_idx: 0, done: buf.len() == 0 }
    }

    /// The next z-character, or `None` when the string has ended; after
    /// that it is `None` for ever.
    pub fn next(&mut self) -> (zc: Option<u8>)
        requires
            old(self).wf(),
        ensures
            final(self).wf(),
            old(self).remaining().len() == 0 ==> zc is None && final(self).remaining().len() == 0,
            old(self).remaining().len() > 0 ==> zc == Some(old(self).remaining()[0])
                && final(self).remaining() == old(self).remaining().skip(1),
            zc matches Some(c) ==> c < 32,
    {
        if self.done {
            return None;
        }
        let ghost all = zchars_from(self.buf@, self.word_idx as int);
        proof {
            lemma_zchars_are_five_bits(self.buf@, self.word_idx as int);
        }
        let high: u8 = self.buf[self.word_idx];
        if self.sub_idx == 0 {
            self.sub_idx = 1;
            let zc: u8 = (high & 0b0111_1100) >> 2;
            proof {
                if self.word_idx + 1 < self.buf@.len() {
                    lemma_first_zchar(high, self.buf@[self.word_idx + 1]);
                } else {
                    lemma_first_zchar(high, 0);
                }
                assert(all.skip(0) == all);
            }
            Some(zc)
        } else if self.sub_idx == 1 {
            if self.word_idx + 1 >= self.buf.len() {
                self.done = true;
                assert(all.skip(1).len() == 0);
                None
            } else {
                self.sub_idx = 2;
                let low: u8 = self.buf[self.word_idx + 1];
                proof {
                    lemma_second_zchar(high, low);
                    assert(all.skip(1).skip(1) == all.skip(2));
                }
                let zc: u8 = ((high & 0b0000_0011) << 3) + ((low & 0b1110_0000) >> 5);
                Some(zc)
            }
        } else {
            let low: u8 = self.buf[self.word_idx + 1];
            let zc: u8 = low & 0b0001_1111;
            proof {
                lemma_third_zchar(high, low);
                lemma_last_word(high, low);
                assert(all.skip(2).skip(1) == all.skip(3));
                if !is_last_word(word_at(self.buf@, self.word_idx as int)) {
                    let rest = zchars_from(self.buf@, self.word_idx + 2);
                    assert(all.skip(3) == rest);
                    assert(rest.skip(0) == rest);
                } else {
                    assert(all.skip(3).len() == 0);
                }
            }
            self.done = (high & 0b1000_0000) != 0 || self.word_idx + 2 >= self.buf.len();
            self.word_idx = self.word_idx + 2;
            self.sub_idx = 0;
            Some(zc)
        }
    }

    /// All the z-characters that are still to come.
    pub fn collect(self) -> (all: Vec<u8>)
        requires
            self.wf(),
        ensures
            all@ == self.remaining(),
    {
        let mut iter = self;
        let mut all: Vec<u8> = Vec::new();
        loop
            invariant
                iter.wf(),
                all@ + iter.remaining() == self.remaining(),
            ensures
                all@ == self.remaining(),
            decreases iter.remaining().len(),
        {
            let ghost before = iter.remaining();
            match iter.next() {
                Some(zc) => {
                    all.push(zc);
                    assert(all@ + iter.remaining() == self.remaining()) by {
                        assert(before == seq![zc] + before.skip(1));
                    }
                },
                None => {
                    assert(all@ + iter.remaining() == all@);
                    break ;
                },
            }
        }
        all
    }
}

/// The alphabet table: 26 lower-case letters, 26 upper-case letters, and 26
/// digits and punctuation marks.
pub const V2_ALPHA_TABLE: [u8; 78] = [
    0x61, 0x62, 0x63, 0x64, 0x65, 0x66, 0x67, 0x68, 0x69, 0x6a, 0x6b, 0x6c, 0x6d,
    0x6e, 0x6f, 0x70, 0x71, 0x72, 0x73, 0x74, 0x75, 0x76, 0x77, 0x78, 0x79, 0x7a,
    0x41, 0x42, 0x43, 0x44, 0x45, 0x46, 0x47, 0x48, 0x49, 0x4a, 0x4b, 0x4c, 0x4d,
    0x4e, 0x4f, 0x50, 0x51, 0x52, 0x53, 0x54, 0x55, 0x56, 0x57, 0x58, 0x59, 0x5a,
    0x20, 0x0a, 0x30, 0x31, 0x32, 0x33, 0x34, 0x35, 0x36, 0x37, 0x38, 0x39, 0x2e,
    0x2c, 0x21, 0x3f, 0x5f, 0x23, 0x27, 0x22, 0x2f, 0x5c, 0x2d, 0x3a, 0x28, 0x29,
];

/// A character code of the machine.
#[derive(Clone, Copy, Debug, PartialEq, Eq, Structural)]
pub struct ZSCII(pub u16);

/// One item of decoded text.
#[derive(Clone, Copy, Debug, PartialEq, Eq, Structural)]
pub enum ZToken {
    /// A character.
    Char(ZSCII),
    /// A reference to entry `index` of abbreviation table `table`, which
    /// stands for a string stored elsewhere in the story.
    Abbrev { table: u8, index: u8 },
}

/// The entry of the alphabet table that z-character `zc` selects in
/// alphabet `alphabet`.
pub open spec fn alphabet_entry(alphabet: u8, zc: u8) -> u16
    recommends
        alphabet <= 2,
        6 <= zc < 32,
{
    V2_ALPHA_TABLE@[26 * alphabet + zc - 6] as u16
}

/// The ZSCII code that two z-characters spell out: the first gives the top
/// five bits, the second the bottom five.
pub open spec fn ten_bit_code(top: u8, bottom: u8) -> u16 {
    (top * 32 + bottom) as u16
}

/// What the z-characters `z` decode to when the machine is in alphabet
/// `alphabet`.
///
/// - 0 is a space.
/// - 1, 2 and 3 name an abbreviation table, and the z-character after it the
///   entry.
/// - 4 and 5 select alphabet 1 and 2 for the next character looked up.
/// - 6 in alphabet 2 announces a ZSCII code spelt out by the next two
///   z-characters.
/// - Every other value is looked up in the alphabet table.
///
/// A look-up or a spelt-out code puts the machine back in alphabet 0. An
/// escape that the end of the string cuts short gives nothing.
pub open spec fn decode_zchars(z: Seq<u8>, alphabet: u8) -> Seq<ZToken>
    decreases z.len(),
{
    if z.len() == 0 {
        Seq::empty()
    } else {
        let zc = z[0];
        let rest = z.skip(1);
        if zc == 0 {
            seq![ZToken::Char(ZSCII(0x20))] + decode_zchars(rest, alphabet)
        } else if zc <= 3 {
            if rest.len() == 0 {
                Seq::empty()
            } else {
                seq![ZToken::Abbrev { table: zc, index: rest[0] }] + decode_zchars(
                    rest.skip(1),
                    alphabet,
                )
            }
        } else if zc == 4 {
            decode_zchars(rest, 1)
        } else if zc == 5 {
            decode_zchars(rest, 2)
        } else if zc == 6 && alphabet == 2 {
            if rest.len() < 2 {
                Seq::empty()
            } else {
                seq![ZToken::Char(ZSCII(ten_bit_code(rest[0], rest[1])))] + decode_zchars(
                    rest.skip(2),
                    0,
                )
            }
        } else {
            seq![ZToken::Char(ZSCII(alphabet_entry(alphabet, zc)))] + decode_zchars(rest, 0)
        }
    }
}

/// Every code that decoding gives fits in ten bits, so that each has a
/// character of its own and none is replaced.
pub proof fn lemma_decoded_codes_fit(z: Seq<u8>, alphabet: u8, i: int)
    requires
        forall|k: int| 0 <= k < z.len() ==> #[trigger] z[k] < 32,
        alphabet <= 2,
        0 <= i < decode_zchars(z, alphabet).len(),
    ensures
        decode_zchars(z, alphabet)[i] matches ZToken::Char(code) ==> code.0 < 0x400
            && unicode_of(code) == code.0 as char,
        decode_zchars(z, alphabet)[i] matches ZToken::Abbrev { table, index } ==> 1 <= table <= 3
            && index < 32,
    decreases z.len(),
{
    let zc = z[0];
    let rest = z.skip(1);
    assert forall|k: int| 0 <= k < rest.len() implies #[trigger] rest[k] < 32 by {
        assert(rest[k] == z[k + 1]);
    }
    if zc == 0 {
        if i > 0 {
            lemma_decoded_codes_fit(rest, alphabet, i - 1);
        }
    } else if zc <= 3 {
        assert(rest[0] == z[1]);
        assert forall|k: int| 0 <= k < rest.skip(1).len() implies #[trigger] rest.skip(1)[k] < 32 by {
            assert(rest.skip(1)[k] == z[k + 2]);
        }
        if i > 0 {
            lemma_decoded_codes_fit(rest.skip(1), alphabet, i - 1);
        }
    } else if zc == 4 {
        lemma_decoded_codes_fit(rest, 1, i);
    } else if zc == 5 {
        lemma_decoded_codes_fit(rest, 2, i);
    } else if zc == 6 && alphabet == 2 {
        assert(rest[0] == z[1]);
        assert(rest[1] == z[2]);
        assert forall|k: int| 0 <= k < rest.skip(2).len() implies #[trigger] rest.skip(2)[k] < 32 by {
            assert(rest.skip(2)[k] == z[k + 3]);
        }
        if i > 0 {
            lemma_decoded_codes_fit(rest.skip(2), 0, i - 1);
        }
    } else {
        if i > 0 {
            lemma_decoded_codes_fit(rest, 0, i - 1);
        }
    }
}

/// Whether `code` is a Unicode scalar value: a code point that is not a
/// surrogate.
pub open spec fn is_scalar_value(code: u32) -> bool {
    code < 0xD800 || 0xE000 <= code <= 0x10FFFF
}

/// Believed, not proved, of std's `char::from_u32`: it gives the character
/// with the given code where the code is a Unicode scalar value, and nothing
/// where it is not.
pub assume_specification[ char::from_u32 ](code: u32) -> (c: Option<char>)
    ensures
        is_scalar_value(code) ==> c == Some(code as char),
        !is_scalar_value(code) ==> c is None,
;

/// The character that a ZSCII code is shown as: the Unicode character with
/// that code, or the replacement character where there is none.
pub open spec fn unicode_of(code: ZSCII) -> char {
    if is_scalar_value(code.0 as u32) {
        code.0 as char
    } else {
        '\u{fffd}'
    }
}

/// The character of a decoded item; an abbreviation has none of its own.
pub open spec fn token_char(token: ZToken) -> char {
    match token {
        ZToken::Char(code) => unicode_of(code),
        ZToken::Abbrev { .. } => '\u{fffd}',
    }
}

/// Whether any of the items is an abbreviation.
pub open spec fn has_abbrev(tokens: Seq<ZToken>) -> bool {
    exists|i: int| 0 <= i < tokens.len() && #[trigger] tokens[i] is Abbrev
}

/// The string that the items spell: their characters in order. Items that
/// hold an abbreviation spell nothing, because only the story can say what
/// the abbreviation stands for.
pub open spec fn text_of(tokens: Seq<ZToken>) -> Result<Seq<char>, ZError> {
    if has_abbrev(tokens) {
        Err(ZError::UnexpandedAbbreviation)
    } else {
        Ok(Seq::new(tokens.len(), |i: int| token_char(tokens[i])))
    }
}

/// What a packed string says: packed text is a whole number of words, and at
/// least one.
pub open spec fn decoded_text(buf: Seq<u8>) -> Result<Seq<char>, ZError> {
    if buf.len() == 0 || buf.len() % 2 != 0 {
        Err(ZError::MalformedText)
    } else {
        text_of(decode_zchars(zchars(buf), 0))
    }
}

impl ZSCII {
    /// The character that the code is shown as.
    pub fn to_char(self) -> (c: char)
        ensures
            c == unicode_of(self),
    {
        match char::from_u32(self.0 as u32) {
            Some(c) => c,
            None => '\u{fffd}',
        }
    }
}

/// Decodes a packed string that must be well formed.
pub fn decode_text(buf: &[u8]) -> (r: Result<String, ZError>)
    ensures
        match decoded_text(buf@) {
            Ok(text) => r is Ok && r.unwrap()@ == text,
            Err(e) => r == Err::<String, ZError>(e),
        },
{
    if buf.len() == 0 || buf.len() % 2 != 0 {
        return Err(ZError::MalformedText);
    }
    ZString::new(buf).into_string()
}

/// A one-shot reader of the text of a packed string.
pub struct ZString<'a> {
    zchars: ZCharIter<'a>,
    active_charset: u8,
}

impl<'a> ZString<'a> {
    /// What holds of every reader.
    pub closed spec fn wf(&self) -> bool {
        &&& self.zchars.wf()
        &&& self.active_charset <= 2
    }

    /// The items that are still to come.
    pub closed spec fn remaining(&self) -> Seq<ZToken> {
        decode_zchars(self.zchars.remaining(), self.active_charset)
    }

    /// A reader at the start of the packed string `buf`, in alphabet 0.
    pub fn new(buf: &'a [u8]) -> (zs: ZString<'a>)
        ensures
            zs.wf(),
            zs.remaining() == decode_zchars(zchars(buf@), 0),
    {
        ZString { zchars: ZCharIter::new(buf), active_charset: 0 }
    }

    /// The next item of the text, or `None` when the text has ended; after
    /// that it is `None` for ever.
    pub fn next(&mut self) -> (item: Option<ZToken>)
        requires
            old(self).wf(),
        ensures
            final(self).wf(),
            old(self).remaining().len() == 0 ==> item is None && final(self).remaining().len() == 0,
            old(self).remaining().len() > 0 ==> item == Some(old(self).remaining()[0])
                && final(self).remaining() == old(self).remaining().skip(1),
    {
        loop
            invariant
                self.wf(),
                self.remaining() == old(self).remaining(),
            decreases self.zchars.remaining().len(),
        {
            let ghost z = self.zchars.remaining();
            let ghost tokens = self.remaining();
            let zc: u8 = match self.zchars.next() {
                Some(zc) => zc,
                None => {
                    return None;
                },
            };
            let ghost rest = z.skip(1);
            if zc == 0 {
                assert(tokens.skip(1) == decode_zchars(rest, self.active_charset));
                return Some(ZToken::Char(ZSCII(0x20)));
            } else if zc <= 3 {
                let index: u8 = match self.zchars.next() {
                    Some(index) => index,
                    None => {
                        return None;
                    },
                };
                assert(tokens.skip(1) == decode_zchars(rest.skip(1), self.active_charset));
                return Some(ZToken::Abbrev { table: zc, index });
            } else if zc == 4 {
                self.active_charset = 1;
            } else if zc == 5 {
                self.active_charset = 2;
            } else if zc == 6 && self.active_charset == 2 {
                let top: u8 = match self.zchars.next() {
                    Some(top) => top,
                    None => {
                        return None;
                    },
                };
                let bottom: u8 = match self.zchars.next() {
                    Some(bottom) => bottom,
                    None => {
                        return None;
                    },
                };
                assert(rest.skip(1).skip(1) == rest.skip(2));
                self.active_charset = 0;
                assert(tokens.skip(1) == decode_zchars(rest.skip(2), 0));
                let code: u16 = top as u16 * 32 + bottom as u16;
                return Some(ZToken::Char(ZSCII(code)));
            } else {
                let idx: usize = (26 * self.active_charset + zc - 6) as usize;
                let code: u16 = V2_ALPHA_TABLE[idx] as u16;
                assert(tokens.skip(1) == decode_zchars(rest, 0));
                self.active_charset = 0;
                return Some(ZToken::Char(ZSCII(code)));
            }
        }
    }
}

impl<'a> ZString<'a> {
    /// The rest of the text as a string.
    pub fn into_string(self) -> (r: Result<String, ZError>)
        requires
            self.wf(),
        ensures
            match text_of(self.remaining()) {
                Ok(text) => r is Ok && r.unwrap()@ == text,
                Err(e) => r == Err::<String, ZError>(e),
            },
    {
        let ghost all = self.remaining();
        let mut reader = self;
        let mut out = String::new();
        let ghost mut seen: Seq<ZToken> = Seq::empty();
        loop
            invariant
                reader.wf(),
                all == self.remaining(),
                seen + reader.remaining() == all,
                !has_abbrev(seen),
                out@ == Seq::new(seen.len(), |i: int| token_char(seen[i])),
            decreases reader.remaining().len(),
        {
            let ghost before = reader.remaining();
            match reader.next() {
                None => {
                    assert(seen + reader.remaining() == seen);
                    return Ok(out);
                },
                Some(ZToken::Abbrev { table, index }) => {
                    assert(all[seen.len() as int] == before[0]);
                    assert(all[seen.len() as int] is Abbrev);
                    return Err(ZError::UnexpandedAbbreviation);
                },
                Some(ZToken::Char(code)) => {
                    out.push(code.to_char());
                    proof {
                        let grown = seen.push(ZToken::Char(code));
                        assert(before == seq![before[0]] + before.skip(1));
                        assert(grown + reader.remaining() == all);
                        assert(!has_abbrev(grown)) by {
                            if has_abbrev(grown) {
                                let i = choose|i: int| 0 <= i < grown.len() && #[trigger] grown[i] is Abbrev;
                                if i < seen.len() {
                                    assert(seen[i] is Abbrev);
                                }
                            }
                        }
                        assert(out@ == Seq::new(grown.len(), |i: int| token_char(grown[i])));
                        seen = grown;
                    }
                },
            }
        }
    }
}

/// What masking and shifting the two bytes of a word gives is the first
/// z-character of the word, and does not depend on the low byte.
proof fn lemma_first_zchar(high: u8, low: u8)
    ensures
        (high & 0b0111_1100) >> 2 == first_zchar(high as int * 0x100 + low as int),
{
    assert((high & 0b0111_1100) >> 2 == (high / 4) % 32) by (bit_vector);
    let w = high as int * 0x100 + low as int;
    assert(w / 0x400 == high as int / 4) by (nonlinear_arith)
        requires
            w == high as int * 0x100 + low as int,
            0 <= low < 0x100,
            0 <= high,
    ;
}

/// What masking and shifting the two bytes of a word gives is the second
/// z-character of the word, and the sum of the two parts fits in a byte.
proof fn lemma_second_zchar(high: u8, low: u8)
    ensures
        ((high & 0b0000_0011) << 3) + ((low & 0b1110_0000) >> 5) == second_zchar(
            high as int * 0x100 + low as int,
        ),
        (high & 0b0000_0011) << 3 <= 24,
        (low & 0b1110_0000) >> 5 <= 7,
{
    assert((high & 0b0000_0011) << 3 == (high % 4) * 8) by (bit_vector);
    assert((low & 0b1110_0000) >> 5 == low / 32) by (bit_vector);
    let w = high as int * 0x100 + low as int;
    assert((w / 0x20) % 0x20 == (high as int % 4) * 8 + low as int / 32) by (nonlinear_arith)
        requires
            w == high as int * 0x100 + low as int,
            0 <= low < 0x100,
            0 <= high,
    ;
}

/// What masking the low byte of a word gives is the third z-character of
/// the word.
proof fn lemma_third_zchar(high: u8, low: u8)
    ensures
        low & 0b0001_1111 == third_zchar(high as int * 0x100 + low as int),
{
    assert(low & 0b0001_1111 == low % 32) by (bit_vector);
    let w = high as int * 0x100 + low as int;
    assert(w % 0x20 == low as int % 32) by (nonlinear_arith)
        requires
            w == high as int * 0x100 + low as int,
            0 <= low,
            0 <= high,
    ;
}

/// The top bit of the high byte marks the last word.
proof fn lemma_last_word(high: u8, low: u8)
    ensures
        ((high & 0b1000_0000) != 0) == is_last_word(high as int * 0x100 + low as int),
{
    assert(((high & 0b1000_0000) != 0) == (high >= 128)) by (bit_vector);
}

} // verus!

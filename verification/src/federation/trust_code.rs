//! Trust codes: a line of text that carries who a user of another instance
//! is, to be handed from person to person.
//!
//! ```text
//! :trust:<display_name>@<home_domain>:<user_pubkey_hex>@<instance_pubkey_hex>
//! ```
//!
//! A code is read from the right: the two keys have a fixed length, so that
//! what is left of them is the name and the domain, which may hold a colon.

use vstd::prelude::*;
use vstd::string::StringExecFns;
use vstd::utf8::*;

use crate::federation::domain;
use crate::federation::domain::parse_instance_domain;
use crate::text;
use crate::text::{cut, find_byte, push_hex, read_hex32};

verus! {

/// How a code starts.
pub const PREFIX: &'static str = ":trust:";

/// The longest name in a code, in bytes.
pub const MAX_DISPLAY_NAME_LEN: usize = 128;

/// What a code carries.
#[derive(Debug, PartialEq, Eq)]
pub struct TrustCode {
    pub display_name: String,
    pub home_domain: String,
    pub user_pubkey: [u8; 32],
    pub instance_pubkey: [u8; 32],
}

/// Why a text is not a code.
#[derive(Clone, Copy, Debug, PartialEq, Eq, Structural)]
pub enum TrustCodeError {
    MissingPrefix,
    Malformed,
    BadHex,
    BadName,
    BadDomain,
}

/// What an error says.
pub open spec fn error_text(e: TrustCodeError) -> Seq<char> {
    match e {
        TrustCodeError::MissingPrefix => "trust code missing ':trust:' prefix"@,
        TrustCodeError::Malformed => "trust code is malformed or truncated"@,
        TrustCodeError::BadHex => "trust code pubkey field is not 64 lowercase hex chars"@,
        TrustCodeError::BadName => "trust code display name is empty, too long, or invalid"@,
        TrustCodeError::BadDomain => "trust code home domain is invalid"@,
    }
}

impl TrustCodeError {
    /// What the error says.
    pub fn as_str(&self) -> (text: &'static str)
        ensures
            text@ == error_text(*self),
    {
        match self {
            TrustCodeError::MissingPrefix => "trust code missing ':trust:' prefix",
            TrustCodeError::Malformed => "trust code is malformed or truncated",
            TrustCodeError::BadHex => "trust code pubkey field is not 64 lowercase hex chars",
            TrustCodeError::BadName => "trust code display name is empty, too long, or invalid",
            TrustCodeError::BadDomain => "trust code home domain is invalid",
        }
    }
}

/// The parts of a code, as bytes.
#[verifier::ext_equal]
pub struct CodeParts {
    pub name: Seq<u8>,
    pub domain: Seq<u8>,
    pub user: Seq<u8>,
    pub instance: Seq<u8>,
}

impl TrustCode {
    /// The parts of the code.
    pub open spec fn view(&self) -> CodeParts {
        CodeParts {
            name: encode_utf8(self.display_name@),
            domain: encode_utf8(self.home_domain@),
            user: self.user_pubkey@,
            instance: self.instance_pubkey@,
        }
    }
}

/// The bytes that a code starts with.
pub open spec fn prefix_bytes() -> Seq<u8> {
    encode_utf8(PREFIX@)
}

/// What stands before a byte and 64 hexadecimal digits at the end of `b`, and
/// the key that the digits write.
pub open spec fn peel(b: Seq<u8>, mark: u8) -> Result<(Seq<u8>, Seq<u8>), TrustCodeError> {
    let n = b.len() - 64;
    if n < 1 || b[n - 1] != mark {
        Err(TrustCodeError::Malformed)
    } else {
        match text::unhex32(b.skip(n), false) {
            Some(key) => Ok((b.take(n - 1), key)),
            None => Err(TrustCodeError::BadHex),
        }
    }
}

/// Whether a name may stand in a code.
pub open spec fn is_name(name: Seq<u8>) -> bool {
    &&& 0 < name.len() <= MAX_DISPLAY_NAME_LEN
    &&& forall|i: int|
        0 <= i < decode_utf8(name).len() ==> !text::is_control(#[trigger] decode_utf8(name)[i])
}

/// The name and the domain that `head` holds, on either side of its first
/// at-sign.
pub open spec fn split_head(head: Seq<u8>) -> Option<(Seq<u8>, Seq<u8>)> {
    if head.contains(0x40) {
        let n = head.index_of_first(0x40)->Some_0;
        Some((head.take(n), head.skip(n + 1)))
    } else {
        None
    }
}

/// What the bytes of a code hold.
pub open spec fn parts_of(b: Seq<u8>) -> Result<CodeParts, TrustCodeError> {
    let p = prefix_bytes();
    if b.len() < p.len() || b.take(p.len() as int) != p {
        Err(TrustCodeError::MissingPrefix)
    } else {
        match peel(b.skip(p.len() as int), 0x40) {
            Err(e) => Err(e),
            Ok((rest, instance)) => match peel(rest, 0x3a) {
                Err(e) => Err(e),
                Ok((head, user)) => match split_head(head) {
                    None => Err(TrustCodeError::Malformed),
                    Some((name, home)) => if !is_name(name) {
                        Err(TrustCodeError::BadName)
                    } else if !domain::is_authority(home) {
                        Err(TrustCodeError::BadDomain)
                    } else {
                        Ok(CodeParts { name, domain: home, user, instance })
                    },
                },
            },
        }
    }
}

/// Reads 32 bytes from 64 lower-case hexadecimal digits.
pub fn decode_hex32(s: &str) -> (bytes: Option<[u8; 32]>)
    ensures
        match bytes {
            Some(k) => text::unhex32(encode_utf8(s@), false) == Some(k@),
            None => text::unhex32(encode_utf8(s@), false) is None,
        },
{
    read_hex32(s.as_bytes(), false)
}

/// The lower-case hexadecimal form of a key.
pub fn encode_hex32(bytes: &[u8; 32]) -> (text: String)
    ensures
        text@ == text::hex(bytes@),
{
    text::hex_lower(bytes.as_slice())
}

/// The code of a user.
pub open spec fn code_text(
    name: Seq<char>,
    home: Seq<char>,
    user: Seq<u8>,
    instance: Seq<u8>,
) -> Seq<char> {
    PREFIX@ + name + "@"@ + home + ":"@ + text::hex(user) + "@"@ + text::hex(instance)
}

/// Makes the code of a user.
pub fn mint(
    display_name: &str,
    home_domain: &str,
    user_pubkey: &[u8; 32],
    instance_pubkey: &[u8; 32],
) -> (code: String)
    ensures
        code@ == code_text(display_name@, home_domain@, user_pubkey@, instance_pubkey@),
{
    let mut code: String = PREFIX.to_owned();
    code.append(display_name);
    code.append("@");
    code.append(home_domain);
    code.append(":");
    push_hex(&mut code, user_pubkey.as_slice());
    code.append("@");
    push_hex(&mut code, instance_pubkey.as_slice());
    code
}

fn starts_with_prefix(b: &[u8]) -> (yes: bool)
    ensures
        yes == (b@.len() >= 7 && b@.take(7) == prefix_bytes()),
{
    proof {
        lemma_prefix();
    }
    let p: &[u8] = PREFIX.as_bytes();
    if b.len() < 7 {
        return false;
    }
    let head: &[u8] = vstd::slice::slice_subrange(b, 0, 7);
    assert(head@ =~= b@.take(7));
    crate::bytes::same_bytes(head, p)
}

proof fn lemma_prefix()
    ensures
        prefix_bytes().len() == 7,
        forall|i: int| 0 <= i < 7 ==> #[trigger] prefix_bytes()[i] < 0x80,
{
    reveal_strlit(":trust:");
    assert(is_ascii_chars(PREFIX@));
    is_ascii_chars_encode_utf8(PREFIX@);
}

/// A key peeled off the end of a byte string, and how long the rest is.
fn peel_key(b: &[u8], mark: u8) -> (peeled: Result<(usize, [u8; 32]), TrustCodeError>)
    ensures
        match peeled {
            Ok((n, key)) => n < b@.len() && b@[n as int] == mark && peel(b@, mark) == Ok::<
                (Seq<u8>, Seq<u8>),
                TrustCodeError,
            >((b@.take(n as int), key@)),
            Err(e) => peel(b@, mark) == Err::<(Seq<u8>, Seq<u8>), TrustCodeError>(e),
        },
{
    if b.len() < 65 {
        return Err(TrustCodeError::Malformed);
    }
    let n: usize = b.len() - 64;
    if b[n - 1] != mark {
        return Err(TrustCodeError::Malformed);
    }
    let digits: &[u8] = vstd::slice::slice_subrange(b, n, b.len());
    assert(digits@ =~= b@.skip(n as int));
    match read_hex32(digits, false) {
        Some(key) => Ok((n - 1, key)),
        None => Err(TrustCodeError::BadHex),
    }
}

fn holds_control(name: &str) -> (yes: bool)
    ensures
        yes == exists|i: int| 0 <= i < name@.len() && text::is_control(#[trigger] name@[i]),
{
    let mut found: bool = false;
    for c in it: name.chars()
        invariant
            it.seq() == name@,
            found == exists|i: int|
                0 <= i < it.index() && text::is_control(#[trigger] name@[i]),
    {
        let ghost at = it.index() as int;
        assert(c == name@[at]);
        if c.is_control() {
            found = true;
            assert(text::is_control(name@[at]));
        }
    }
    found
}

/// Reads a code. White space around it is passed over.
pub fn parse(input: &str) -> (code: Result<TrustCode, TrustCodeError>)
    ensures
        match code {
            Ok(c) => parts_of(encode_utf8(text::trimmed(input@))) == Ok::<
                CodeParts,
                TrustCodeError,
            >(c@),
            Err(e) => parts_of(encode_utf8(text::trimmed(input@))) == Err::<
                CodeParts,
                TrustCodeError,
            >(e),
        },
{
    let line: &str = input.trim();
    let b: &[u8] = line.as_bytes();
    let ghost all = encode_utf8(line@);
    assert(b@ == all);
    proof {
        lemma_prefix();
    }
    if !starts_with_prefix(b) {
        return Err(TrustCodeError::MissingPrefix);
    }
    let body: &[u8] = vstd::slice::slice_subrange(b, 7, b.len());
    assert(body@ =~= all.skip(7));
    let (rest_len, instance_pubkey): (usize, [u8; 32]) = match peel_key(body, 0x40) {
        Ok(p) => p,
        Err(e) => return Err(e),
    };
    let rest: &[u8] = vstd::slice::slice_subrange(body, 0, rest_len);
    assert(rest@ =~= body@.take(rest_len as int));
    let (head_len, user_pubkey): (usize, [u8; 32]) = match peel_key(rest, 0x3a) {
        Ok(p) => p,
        Err(e) => return Err(e),
    };
    let head: &[u8] = vstd::slice::slice_subrange(rest, 0, head_len);
    assert(head@ =~= rest@.take(head_len as int));
    let at: usize = match find_byte(head, 0x40) {
        Some(n) => n,
        None => return Err(TrustCodeError::Malformed),
    };
    proof {
        assert(head@[at as int] == 0x40);
        assert(head@.contains(0x40));
        head@.index_of_first_ensures(0x40);
        assert(head@.index_of_first(0x40) == Some(at as int));
        assert(all[7 + head_len as int] == rest@[head_len as int]);
        assert(all[7 + at as int] == head@[at as int]);
        assert(all[6] == all.take(7)[6]);
    }
    let upto_head: (&str, &str) = cut(line, 7 + head_len);
    let ghost named = encode_utf8(upto_head.0@);
    assert(named =~= all.take(7 + head_len as int));
    let upto_name: (&str, &str) = cut(upto_head.0, 7 + at);
    let ghost before_at = encode_utf8(upto_name.0@);
    assert(before_at =~= all.take(7 + at as int));
    let display_name: &str = cut(upto_name.0, 7).1;
    let ghost after_name = encode_utf8(upto_name.1@);
    assert(after_name[0] == 0x40);
    let home_domain: &str = cut(upto_name.1, 1).1;
    proof {
        assert(encode_utf8(display_name@) =~= head@.take(at as int));
        assert(encode_utf8(home_domain@) =~= head@.skip(at + 1));
        encode_utf8_decode_utf8(display_name@);
    }
    if at == 0 || at > MAX_DISPLAY_NAME_LEN || holds_control(display_name) {
        return Err(TrustCodeError::BadName);
    }
    if parse_instance_domain(home_domain).is_err() {
        return Err(TrustCodeError::BadDomain);
    }
    Ok(
        TrustCode {
            display_name: display_name.to_owned(),
            home_domain: home_domain.to_owned(),
            user_pubkey,
            instance_pubkey,
        },
    )
}

/// A code that was made reads back as what it was made of, for every name
/// that a user can have here: not empty, not too long, without control
/// characters and without an at-sign.
pub proof fn law_minted_code_reads_back(
    name: Seq<char>,
    home: Seq<char>,
    user: Seq<u8>,
    instance: Seq<u8>,
)
    requires
        0 < encode_utf8(name).len() <= MAX_DISPLAY_NAME_LEN,
        forall|i: int| 0 <= i < name.len() ==> !text::is_control(#[trigger] name[i]),
        !name.contains('@'),
        domain::is_instance_domain(home),
        user.len() == 32,
        instance.len() == 32,
    ensures
        parts_of(encode_utf8(text::trimmed(code_text(name, home, user, instance)))) == Ok::<
            CodeParts,
            TrustCodeError,
        >(
            CodeParts {
                name: encode_utf8(name),
                domain: encode_utf8(home),
                user,
                instance,
            },
        ),
{
    let code = code_text(name, home, user, instance);
    let at = seq![0x40u8];
    let colon = seq![0x3au8];
    reveal_strlit(":trust:");
    reveal_strlit("@");
    reveal_strlit(":");
    lemma_prefix();
    text::law_hex_reads_back(user, false);
    text::law_hex_reads_back(instance, false);
    let hu = encode_utf8(text::hex(user));
    let hi = encode_utf8(text::hex(instance));
    assert(is_ascii_chars("@"@));
    assert(is_ascii_chars(":"@));
    is_ascii_chars_encode_utf8("@"@);
    is_ascii_chars_encode_utf8(":"@);
    assert(encode_utf8("@"@) =~= at);
    assert(encode_utf8(":"@) =~= colon);
    assert(hu.len() == 64 && hi.len() == 64);
    let c1 = PREFIX@ + name;
    let c2 = c1 + "@"@;
    let c3 = c2 + home;
    let c4 = c3 + ":"@;
    let c5 = c4 + text::hex(user);
    let c6 = c5 + "@"@;
    text::lemma_utf8_concat(PREFIX@, name);
    text::lemma_utf8_concat(c1, "@"@);
    text::lemma_utf8_concat(c2, home);
    text::lemma_utf8_concat(c3, ":"@);
    text::lemma_utf8_concat(c4, text::hex(user));
    text::lemma_utf8_concat(c5, "@"@);
    text::lemma_utf8_concat(c6, text::hex(instance));
    assert(code == c6 + text::hex(instance));
    let n = encode_utf8(name);
    let h = encode_utf8(home);
    let b = encode_utf8(code);
    let p = prefix_bytes();
    assert(b =~= p + n + at + h + colon + hu + at + hi);
    // The line neither starts nor ends with white space.
    assert(code[0] == ':');
    assert(code.last() == text::hex(instance)[63]);
    assert(!text::is_white_space(code[0]));
    assert(!text::is_white_space(code.last())) by {
        assert(text::hex(instance)[63] == text::hex_digit(instance[31] as int % 16));
    }
    text::lemma_trimmed_is_identity(code);
    // Each step of the reading finds its part.
    let body = n + at + h + colon + hu + at + hi;
    let rest = n + at + h + colon + hu;
    let head = n + at + h;
    assert(b.take(7) =~= p);
    assert(b.skip(7) =~= body);
    assert(body.skip(body.len() - 64) =~= hi);
    assert(body.take(body.len() - 65) =~= rest);
    assert(body[body.len() - 65] == 0x40);
    assert(rest.skip(rest.len() - 64) =~= hu);
    assert(rest.take(rest.len() - 65) =~= head);
    assert(rest[rest.len() - 65] == 0x3a);
    assert(head[n.len() as int] == 0x40);
    assert(head.contains(0x40));
    assert forall|i: int| 0 <= i < n.len() implies #[trigger] n[i] != 0x40 by {
        if n[i] == 0x40 {
            text::lemma_ascii_byte_is_char(name, i);
            assert(name.contains(0x40u8 as char));
        }
    }
    head.index_of_first_ensures(0x40);
    let k = head.index_of_first(0x40)->Some_0;
    assert(k == n.len()) by {
        if k < n.len() {
            assert(head[k] == n[k]);
        }
    }
    assert(head.take(k) =~= n);
    assert(head.skip(k + 1) =~= h);
    encode_utf8_decode_utf8(name);
}

/// What reads as a code is the code of what was read: making the code again
/// gives the same line, but for the white space around it. Its name is neither
/// empty nor longer than 128 bytes and holds no control character and no
/// at-sign, and its domain is one.
pub proof fn law_codes_are_what_is_made_of_them(
    input: &str,
    code: Result<TrustCode, TrustCodeError>,
    name: &str,
    home: &str,
    again: String,
)
    requires
        call_ensures(parse, (input,), code),
        code is Ok,
        name@ == code->Ok_0.display_name@,
        home@ == code->Ok_0.home_domain@,
        call_ensures(
            mint,
            (name, home, &code->Ok_0.user_pubkey, &code->Ok_0.instance_pubkey),
            again,
        ),
    ensures
        again@ == text::trimmed(input@),
        0 < encode_utf8(name@).len() <= 128,
        forall|i: int| 0 <= i < name@.len() ==> !text::is_control(#[trigger] name@[i]),
        !encode_utf8(name@).contains(0x40),
        domain::is_instance_domain(home@),
{
    let c = code->Ok_0;
    let line = text::trimmed(input@);
    let b = encode_utf8(line);
    let p = prefix_bytes();
    lemma_prefix();
    reveal_strlit("@");
    reveal_strlit(":");
    let user = c.user_pubkey@;
    let instance = c.instance_pubkey@;
    let n = encode_utf8(name@);
    let h = encode_utf8(home@);
    let at = seq![0x40u8];
    let colon = seq![0x3au8];
    let body = b.skip(7);
    let rest = body.take(body.len() - 65);
    let head = rest.take(rest.len() - 65);
    text::law_lower_digits_write_back(body.skip(body.len() - 64), instance);
    text::law_lower_digits_write_back(rest.skip(rest.len() - 64), user);
    let hu = encode_utf8(text::hex(user));
    let hi = encode_utf8(text::hex(instance));
    assert(head.contains(0x40));
    head.index_of_first_ensures(0x40);
    let k = head.index_of_first(0x40)->Some_0;
    assert(n == head.take(k));
    assert(h == head.skip(k + 1));
    assert(head =~= n + at + h);
    assert(rest =~= head + colon + hu);
    assert(body =~= rest + at + hi);
    assert(b =~= p + body);
    assert(!n.contains(0x40)) by {
        if n.contains(0x40) {
            let i = choose|i: int| 0 <= i < n.len() && n[i] == 0x40;
            assert(head[i] == 0x40);
        }
    }
    encode_utf8_decode_utf8(name@);
    assert(decode_utf8(n) == name@);
    assert(is_ascii_chars("@"@));
    assert(is_ascii_chars(":"@));
    is_ascii_chars_encode_utf8("@"@);
    is_ascii_chars_encode_utf8(":"@);
    assert(encode_utf8("@"@) =~= at);
    assert(encode_utf8(":"@) =~= colon);
    let c1 = PREFIX@ + name@;
    let c2 = c1 + "@"@;
    let c3 = c2 + home@;
    let c4 = c3 + ":"@;
    let c5 = c4 + text::hex(user);
    let c6 = c5 + "@"@;
    text::lemma_utf8_concat(PREFIX@, name@);
    text::lemma_utf8_concat(c1, "@"@);
    text::lemma_utf8_concat(c2, home@);
    text::lemma_utf8_concat(c3, ":"@);
    text::lemma_utf8_concat(c4, text::hex(user));
    text::lemma_utf8_concat(c5, "@"@);
    text::lemma_utf8_concat(c6, text::hex(instance));
    assert(again@ == c6 + text::hex(instance));
    assert(encode_utf8(again@) =~= b);
    encode_utf8_decode_utf8(again@);
    encode_utf8_decode_utf8(line);
}

} // verus!

//! Content-addressed identities: a short, filesystem-safe name derived from a value's
//! canonical serialisation, or a name chosen by the user.
use vstd::prelude::*;
use vstd::utf8::encode_utf8;
use sha2::Digest;

verus! {

/// The SHA-224 digest of `data`.
pub uninterp spec fn sha224_of(data: Seq<u8>) -> Seq<u8>;

/// The base-62 alphabet: digits, then upper-case, then lower-case ASCII letters.
pub open spec fn base62_alphabet() -> Seq<char> {
    seq![
        '0', '1', '2', '3', '4', '5', '6', '7', '8', '9',
        'A', 'B', 'C', 'D', 'E', 'F', 'G', 'H', 'I', 'J',
        'K', 'L', 'M', 'N', 'O', 'P', 'Q', 'R', 'S', 'T',
        'U', 'V', 'W', 'X', 'Y', 'Z', 'a', 'b', 'c', 'd',
        'e', 'f', 'g', 'h', 'i', 'j', 'k', 'l', 'm', 'n',
        'o', 'p', 'q', 'r', 's', 't', 'u', 'v', 'w', 'x',
        'y', 'z',
    ]
}

/// The value of `bytes` read as a big-endian unsigned integer.
pub open spec fn be_value(bytes: Seq<u8>) -> nat
    decreases bytes.len(),
{
    if bytes.len() == 0 {
        0
    } else {
        be_value(bytes.drop_last()) * 256 + bytes.last() as nat
    }
}

/// The base-62 digits of `v`, least significant first; none for zero.
pub open spec fn base62_digits(v: nat) -> Seq<char>
    decreases v,
{
    if v == 0 {
        Seq::empty()
    } else {
        seq![base62_alphabet()[(v % 62) as int]] + base62_digits(v / 62)
    }
}

/// The base-62 text of `data`: byte 1 put in front, the whole read big-endian, written in
/// base-62 digits least significant first. Empty input gives empty text.
pub open spec fn base62_of(data: Seq<u8>) -> Seq<char> {
    if data.len() == 0 {
        Seq::empty()
    } else {
        base62_digits(be_value(seq![1u8] + data))
    }
}

/// `b` to the power `e`.
pub open spec fn pow_nat(b: nat, e: nat) -> nat
    decreases e,
{
    if e == 0 {
        1
    } else {
        b * pow_nat(b, (e - 1) as nat)
    }
}

/// A character of the base-62 alphabet: a digit, an upper-case or a lower-case ASCII letter.
pub open spec fn is_base62_char(c: char) -> bool {
    ('0' <= c && c <= '9') || ('A' <= c && c <= 'Z') || ('a' <= c && c <= 'z')
}

/// Text made of base-62 characters only, safe as a single path segment.
pub open spec fn is_base62_text(s: Seq<char>) -> bool {
    forall|i: int| 0 <= i < s.len() ==> is_base62_char(#[trigger] s[i])
}

/// Relies on sha2::Sha224: the SHA-224 digest of `data`, which is 28 bytes long.
#[verifier::external_body]
fn sha224_digest(data: &[u8]) -> (r: Vec<u8>)
    ensures
        r@ == sha224_of(data@),
        r@.len() == 28,
{
    sha2::Sha224::digest(data).to_vec()
}

/// Relies on base_62::encode: byte 1 put in front, the whole read as a big-endian integer
/// and written in the alphabet `0-9A-Za-z`, least significant digit first.
#[verifier::external_body]
fn base62_encode(data: &[u8]) -> (r: String)
    ensures
        r@ == base62_of(data@),
{
    base_62::encode(data)
}

proof fn lemma_base62_digits_text(v: nat)
    ensures
        is_base62_text(base62_digits(v)),
    decreases v,
{
    if v > 0 {
        lemma_base62_digits_text(v / 62);
        let k = (v % 62) as int;
        assert(is_base62_char(base62_alphabet()[k]));
        let d = base62_digits(v);
        let tail = base62_digits(v / 62);
        assert forall|i: int| 0 <= i < d.len() implies is_base62_char(#[trigger] d[i]) by {
            if i > 0 {
                assert(d[i] == tail[i - 1]);
            }
        }
    }
}

proof fn lemma_base62_digits_len(v: nat, k: nat)
    requires
        k >= 1,
        pow_nat(62, (k - 1) as nat) <= v < pow_nat(62, k),
    ensures
        base62_digits(v).len() == k,
    decreases k,
{
    let lo = pow_nat(62, (k - 1) as nat);
    assert(v < 62 * lo);
    assert(v / 62 < lo) by (nonlinear_arith)
        requires
            v < 62 * lo,
    ;
    if k == 1 {
        assert(v / 62 == 0);
        assert(base62_digits(0) =~= Seq::<char>::empty());
    } else {
        let lo2 = pow_nat(62, (k - 2) as nat);
        assert(lo == 62 * lo2);
        assert(v / 62 >= lo2) by (nonlinear_arith)
            requires
                v >= 62 * lo2,
        ;
        lemma_base62_digits_len(v / 62, (k - 1) as nat);
    }
}

proof fn lemma_be_value_lead_one(d: Seq<u8>)
    ensures
        be_value(seq![1u8] + d) == pow_nat(256, d.len()) + be_value(d),
        be_value(d) < pow_nat(256, d.len()),
    decreases d.len(),
{
    if d.len() == 0 {
        let s = seq![1u8] + d;
        assert(s.drop_last() =~= Seq::<u8>::empty());
        assert(s.last() == 1u8);
        assert(be_value(s) == be_value(s.drop_last()) * 256 + 1);
    } else {
        let p = d.drop_last();
        lemma_be_value_lead_one(p);
        let s = seq![1u8] + d;
        assert(s.drop_last() =~= seq![1u8] + p);
        assert(s.last() == d.last());
        assert(be_value(s) == be_value(seq![1u8] + p) * 256 + d.last() as nat);
        assert(be_value(d) == be_value(p) * 256 + d.last() as nat);
        let pw = pow_nat(256, p.len());
        let bp = be_value(p);
        let last = d.last() as nat;
        assert(pow_nat(256, d.len()) == 256 * pw);
        assert(bp * 256 + last < 256 * pw) by (nonlinear_arith)
            requires
                bp < pw,
                last < 256,
        ;
        assert((pw + bp) * 256 + last == 256 * pw + (bp * 256 + last)) by (nonlinear_arith);
    }
}

/// The base-62 text of a 28-byte digest is 38 characters of the base-62 alphabet.
proof fn lemma_base62_of_digest(d: Seq<u8>)
    requires
        d.len() == 28,
    ensures
        base62_of(d).len() == 38,
        is_base62_text(base62_of(d)),
{
    lemma_be_value_lead_one(d);
    reveal_with_fuel(pow_nat, 40);
    assert(pow_nat(256, 28) == 26959946667150639794667015087019630673637144422540572481103610249216);
    assert(pow_nat(62, 37) == 2082056503891137704820107499730210233816384359183953336895056904192);
    assert(pow_nat(62, 38) == 129087503241250537698846664983273034496615830269405106887493528059904);
    let v = be_value(seq![1u8] + d);
    lemma_base62_digits_len(v, 38);
    lemma_base62_digits_text(v);
}

/// The hash-derived identity of a canonical serialisation: base-62 of the SHA-224 digest
/// of its UTF-8 bytes.
pub open spec fn hashed_identity(serialised: Seq<char>) -> Seq<char> {
    base62_of(sha224_of(encode_utf8(serialised)))
}

/// The identity of a value with canonical serialisation `serialised`: a non-empty
/// user-chosen name verbatim, else the hash-derived identity.
pub open spec fn identity_of(serialised: Seq<char>, name: Option<Seq<char>>) -> Seq<char> {
    match name {
        Some(n) => if n.len() > 0 {
            n
        } else {
            hashed_identity(serialised)
        },
        None => hashed_identity(serialised),
    }
}

/// The user-chosen name of an optional `&str`, as a sequence of characters.
pub open spec fn name_view(name: Option<&str>) -> Option<Seq<char>> {
    match name {
        Some(n) => Some(n@),
        None => None,
    }
}

/// Derives the hash-derived identity of a value from its canonical serialisation.
/// The result is 38 characters long and made of base-62 characters only.
pub fn id_from_serialised(serialised: &str) -> (r: String)
    ensures
        r@ == hashed_identity(serialised@),
        r@.len() == 38,
        is_base62_text(r@),
{
    let digest = sha224_digest(serialised.as_bytes());
    proof {
        lemma_base62_of_digest(digest@);
    }
    base62_encode(digest.as_slice())
}

/// The identity of a value: `name` verbatim when it is present and non-empty, otherwise the
/// hash-derived identity of the canonical serialisation.
pub fn identity(serialised: &str, name: Option<&str>) -> (r: String)
    ensures
        r@ == identity_of(serialised@, name_view(name)),
{
    match name {
        Some(n) => {
            if n.is_empty() {
                id_from_serialised(serialised)
            } else {
                String::from_str(n)
            }
        },
        None => id_from_serialised(serialised),
    }
}

/// Identities are deterministic: equal canonical serialisations and equal names give
/// equal identities, whenever and wherever they are computed.
pub proof fn lemma_identity_deterministic(
    s1: Seq<char>,
    s2: Seq<char>,
    name: Option<Seq<char>>,
)
    requires
        s1 == s2,
    ensures
        identity_of(s1, name) == identity_of(s2, name),
{
}

/// A value that has a canonical serialisation and a filename-friendly identity.
pub trait IdStr {
    /// The canonical serialisation of this value, as text. A verified implementation states
    /// it; one written outside verified code leaves it unspecified.
    closed spec fn canonical_view(&self) -> Seq<char> {
        arbitrary()
    }

    /// The name this value chooses for itself instead of its hash-derived identity, if any.
    /// A verified implementation states it; one written outside verified code leaves it
    /// unspecified.
    closed spec fn chosen_name(&self) -> Option<Seq<char>> {
        arbitrary()
    }

    /// The canonical serialisation: fields in their declared order.
    fn canonical_json(&self) -> (r: String)
        ensures
            r@ == self.canonical_view(),
    ;

    /// The identity of this value. Unless the value chooses a name, the hash-derived identity
    /// of its canonical serialisation.
    fn id_str(&self) -> (r: String)
        ensures
            self.chosen_name() is None ==> r@ == hashed_identity(self.canonical_view()),
    {
        id_from_serialised(self.canonical_json().as_str())
    }
}

/// The inputs of an experiment: they prefix output filenames.
pub trait ExpInputs: IdStr {}

/// The parameters of an experiment: their identity names the output directory.
pub trait ExpParameters: IdStr {}

/// The outputs of an experiment, derived from its inputs and parameters.
pub trait ExpOutputs: Sized {
    type Inputs: ExpInputs;

    type Params: ExpParameters;

    fn new(inputs: &Self::Inputs, params: &Self::Params) -> Self;
}

/// Access to the parts of an experiment.
pub trait ExperimentAuto {
    type Inputs: ExpInputs;

    type Parameters: ExpParameters;

    type Outputs;

    fn inputs(&self) -> &Self::Inputs;

    fn outputs(&self) -> &Self::Outputs;

    fn parameters(&self) -> &Self::Parameters;
}

/// An experiment made of its inputs, parameters and outputs.
pub struct ExpInner<I, P, O> {
    pub inputs: I,
    pub parameters: P,
    pub outputs: O,
}

impl<I: ExpInputs, P: ExpParameters, O: ExpOutputs<Inputs = I, Params = P>> ExpInner<I, P, O> {
    pub fn new(inputs: I, parameters: P, outputs: O) -> (r: Self)
        ensures
            r.inputs == inputs,
            r.parameters == parameters,
            r.outputs == outputs,
    {
        ExpInner { inputs, parameters, outputs }
    }
}

} // verus!

use vstd::prelude::*;

verus! {

/// One of the four character classes an alphabet can be built from.
#[derive(Clone, Copy, Debug, PartialEq, Eq, Structural)]
pub enum CharClass {
    Numbers,
    Lowercase,
    Uppercase,
    Special,
}

/// Which character classes are selected.
#[derive(Clone, Copy, Debug, PartialEq, Eq, Structural)]
pub struct ClassSelection {
    pub numbers: bool,
    pub lowercase: bool,
    pub uppercase: bool,
    pub special: bool,
}

/// Mapping bytes to characters needs at least one selected class.
#[derive(Clone, Copy, Debug, PartialEq, Eq, Structural)]
pub enum MapError {
    EmptyAlphabet,
}

/// `count` consecutive byte values starting at `first`.
pub open spec fn byte_run(first: u8, count: nat) -> Seq<u8> {
    Seq::new(count, |i: int| (first + i) as u8)
}

/// The digits `0` to `9`.
pub open spec fn numbers_spec() -> Seq<u8> {
    byte_run(0x30, 10)
}

/// The letters `a` to `z`.
pub open spec fn lowercase_spec() -> Seq<u8> {
    byte_run(0x61, 26)
}

/// The letters `A` to `Z`.
pub open spec fn uppercase_spec() -> Seq<u8> {
    byte_run(0x41, 26)
}

/// The special characters, in their fixed order:
/// `` -~!@#$%^&*_+=`|(){}[:;"'<>,.?]``, starting with a space.
pub open spec fn special_spec() -> Seq<u8> {
    seq![
        0x20u8, 0x2d, 0x7e, 0x21, 0x40, 0x23, 0x24, 0x25, 0x5e, 0x26, 0x2a, 0x5f, 0x2b, 0x3d,
        0x60, 0x7c, 0x28, 0x29, 0x7b, 0x7d, 0x5b, 0x3a, 0x3b, 0x22, 0x27, 0x3c, 0x3e, 0x2c,
        0x2e, 0x3f, 0x5d,
    ]
}

/// `part` when `on` holds, nothing otherwise.
pub open spec fn part_if(on: bool, part: Seq<u8>) -> Seq<u8> {
    if on {
        part
    } else {
        Seq::empty()
    }
}

/// The alphabet of a selection: the selected classes concatenated in the
/// fixed order numbers, lowercase, uppercase, special.
pub open spec fn alphabet_of(c: ClassSelection) -> Seq<u8> {
    part_if(c.numbers, numbers_spec()) + part_if(c.lowercase, lowercase_spec()) + part_if(
        c.uppercase,
        uppercase_spec(),
    ) + part_if(c.special, special_spec())
}

/// The alphabet member that byte `b` stands for.
pub open spec fn map_byte_spec(b: u8, alphabet: Seq<u8>) -> u8
    recommends
        alphabet.len() > 0,
{
    alphabet[(b as int) % (alphabet.len() as int)]
}

/// Every byte of `buffer` replaced by the alphabet member it stands for.
pub open spec fn map_bytes_spec(buffer: Seq<u8>, alphabet: Seq<u8>) -> Seq<u8> {
    buffer.map_values(|b: u8| map_byte_spec(b, alphabet))
}

impl ClassSelection {
    pub open spec fn is_empty_spec(&self) -> bool {
        !self.numbers && !self.lowercase && !self.uppercase && !self.special
    }

    /// The selection with `class` added.
    pub open spec fn with_spec(self, class: CharClass) -> ClassSelection {
        match class {
            CharClass::Numbers => ClassSelection { numbers: true, ..self },
            CharClass::Lowercase => ClassSelection { lowercase: true, ..self },
            CharClass::Uppercase => ClassSelection { uppercase: true, ..self },
            CharClass::Special => ClassSelection { special: true, ..self },
        }
    }

    pub open spec fn none_spec() -> ClassSelection {
        ClassSelection { numbers: false, lowercase: false, uppercase: false, special: false }
    }

    /// The selection of no class at all.
    pub fn none() -> (r: ClassSelection)
        ensures
            r == ClassSelection::none_spec(),
            r.is_empty_spec(),
    {
        ClassSelection { numbers: false, lowercase: false, uppercase: false, special: false }
    }

    /// Adds one class to the selection.
    pub fn with(self, class: CharClass) -> (r: ClassSelection)
        ensures
            r == self.with_spec(class),
    {
        match class {
            CharClass::Numbers => ClassSelection { numbers: true, ..self },
            CharClass::Lowercase => ClassSelection { lowercase: true, ..self },
            CharClass::Uppercase => ClassSelection { uppercase: true, ..self },
            CharClass::Special => ClassSelection { special: true, ..self },
        }
    }

    /// True when no class is selected.
    pub fn is_empty(&self) -> (r: bool)
        ensures
            r == self.is_empty_spec(),
    {
        !self.numbers && !self.lowercase && !self.uppercase && !self.special
    }
}

/// Appends the run of `count` byte values starting at `first`.
fn push_run(out: &mut Vec<u8>, first: u8, count: u8)
    requires
        first as int + count as int <= 128,
    ensures
        final(out)@ == old(out)@ + byte_run(first, count as nat),
{
    let ghost start = out@;
    let mut k: u8 = 0;
    while k < count
        invariant
            k <= count,
            first as int + count as int <= 128,
            out@ == start + byte_run(first, k as nat),
        decreases count - k,
    {
        out.push(first + k);
        k = k + 1;
        assert(out@ =~= start + byte_run(first, k as nat));
    }
}

/// Appends the bytes of the special-character class.
fn push_special(out: &mut Vec<u8>)
    ensures
        final(out)@ == old(out)@ + special_spec(),
{
    let special: Vec<u8> = vec![
        0x20u8, 0x2d, 0x7e, 0x21, 0x40, 0x23, 0x24, 0x25, 0x5e, 0x26, 0x2a, 0x5f, 0x2b, 0x3d,
        0x60, 0x7c, 0x28, 0x29, 0x7b, 0x7d, 0x5b, 0x3a, 0x3b, 0x22, 0x27, 0x3c, 0x3e, 0x2c,
        0x2e, 0x3f, 0x5d,
    ];
    let ghost start = out@;
    let mut k: usize = 0;
    while k < special.len()
        invariant
            k <= special@.len(),
            special@ == special_spec(),
            out@ == start + special_spec().subrange(0, k as int),
        decreases special@.len() - k,
    {
        out.push(special[k]);
        k = k + 1;
        assert(out@ =~= start + special_spec().subrange(0, k as int));
    }
    assert(special_spec().subrange(0, k as int) =~= special_spec());
}

/// Builds the alphabet of a selection, fresh on every call.
pub fn build_alphabet(classes: &ClassSelection) -> (r: Vec<u8>)
    ensures
        r@ == alphabet_of(*classes),
{
    let mut out: Vec<u8> = Vec::new();
    if classes.numbers {
        push_run(&mut out, 0x30, 10);
    }
    if classes.lowercase {
        push_run(&mut out, 0x61, 26);
    }
    if classes.uppercase {
        push_run(&mut out, 0x41, 26);
    }
    if classes.special {
        push_special(&mut out);
    }
    assert(out@ =~= alphabet_of(*classes));
    out
}

/// The alphabet member that byte `b` stands for: `alphabet[b mod |alphabet|]`.
pub fn map_byte(b: u8, alphabet: &Vec<u8>) -> (r: u8)
    requires
        alphabet@.len() > 0,
    ensures
        r == map_byte_spec(b, alphabet@),
{
    alphabet[(b as usize) % alphabet.len()]
}

/// Replaces each byte of `result` by the member of the selection's alphabet
/// it stands for; fails, leaving `result` as it was, when nothing is selected.
pub fn bytes_to_utfchars(result: &mut Vec<u8>, classes: &ClassSelection) -> (r: Result<
    (),
    MapError,
>)
    ensures
        r is Err <==> classes.is_empty_spec(),
        r == Err::<(), MapError>(MapError::EmptyAlphabet) ==> final(result)@ == old(result)@,
        r is Ok ==> final(result)@ == map_bytes_spec(old(result)@, alphabet_of(*classes)),
{
    let alphabet = build_alphabet(classes);
    proof {
        lemma_alphabet_empty_iff(*classes);
    }
    if alphabet.len() == 0 {
        return Err(MapError::EmptyAlphabet);
    }
    let ghost start = result@;
    let mut k: usize = 0;
    while k < result.len()
        invariant
            k <= result@.len(),
            result@.len() == start.len(),
            alphabet@ == alphabet_of(*classes),
            alphabet@.len() > 0,
            forall|i: int| 0 <= i < k ==> result@[i] == map_byte_spec(start[i], alphabet@),
            forall|i: int| k <= i < result@.len() ==> result@[i] == start[i],
        decreases result@.len() - k,
    {
        let mapped = map_byte(result[k], &alphabet);
        result.set(k, mapped);
        k = k + 1;
    }
    assert(result@ =~= map_bytes_spec(start, alphabet@));
    Ok(())
}

/// The alphabet is empty exactly when no class is selected.
pub proof fn lemma_alphabet_empty_iff(c: ClassSelection)
    ensures
        (alphabet_of(c).len() == 0) <==> c.is_empty_spec(),
{
}

/// Every alphabet member is a printable ASCII byte.
pub proof fn lemma_alphabet_ascii(c: ClassSelection)
    ensures
        forall|i: int|
            0 <= i < alphabet_of(c).len() ==> 0x20 <= #[trigger] alphabet_of(c)[i] < 0x7f,
{
    let a = alphabet_of(c);
    assert forall|i: int| 0 <= i < a.len() implies 0x20 <= #[trigger] a[i] < 0x7f by {
        let n = part_if(c.numbers, numbers_spec());
        let l = part_if(c.lowercase, lowercase_spec());
        let u = part_if(c.uppercase, uppercase_spec());
        let s = part_if(c.special, special_spec());
        assert(a == n + l + u + s);
        if i < n.len() {
            assert(a[i] == n[i]);
        } else if i < n.len() + l.len() {
            assert(a[i] == l[i - n.len()]);
        } else if i < n.len() + l.len() + u.len() {
            assert(a[i] == u[i - n.len() - l.len()]);
        } else {
            assert(a[i] == s[i - n.len() - l.len() - u.len()]);
        }
    }
}

/// Adding two classes gives the same selection, and so the same alphabet,
/// whichever is added first.
pub proof fn lemma_selection_order_independent(c: ClassSelection, a: CharClass, b: CharClass)
    ensures
        c.with_spec(a).with_spec(b) == c.with_spec(b).with_spec(a),
        alphabet_of(c.with_spec(a).with_spec(b)) == alphabet_of(c.with_spec(b).with_spec(a)),
{
}

/// Selecting uppercase and numbers, in either order, puts the digits before
/// the uppercase letters.
pub proof fn lemma_numbers_before_uppercase()
    ensures
        alphabet_of(ClassSelection::none_spec().with_spec(CharClass::Uppercase).with_spec(
            CharClass::Numbers,
        )) == numbers_spec() + uppercase_spec(),
        alphabet_of(ClassSelection::none_spec().with_spec(CharClass::Numbers).with_spec(
            CharClass::Uppercase,
        )) == numbers_spec() + uppercase_spec(),
{
    let c = ClassSelection::none_spec().with_spec(CharClass::Numbers).with_spec(
        CharClass::Uppercase,
    );
    assert(alphabet_of(c) =~= numbers_spec() + uppercase_spec());
    lemma_selection_order_independent(
        ClassSelection::none_spec(),
        CharClass::Numbers,
        CharClass::Uppercase,
    );
}

} // verus!

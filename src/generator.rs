use vstd::prelude::*;
use crate::charset::{
    alphabet_of, bytes_to_utfchars, lemma_alphabet_ascii, map_bytes_spec, ClassSelection,
};
use crate::entropy::{acquire, motion_seconds, zeros, Acquired, BASE_MOTION_SECONDS,
    FALLBACK_MOTION_SECONDS};
use crate::mixer::{
    fresh_mixer, mixed_buffer, MixerView, MotionMixer, Pause, TICKS_PER_SECOND,
};

verus! {

/// What one generation request asks for.
#[derive(Clone, Copy, Debug, PartialEq, Eq, Structural)]
pub struct GenerationConfig {
    /// Characters to produce, from 1 to 255.
    pub length: u8,
    pub classes: ClassSelection,
    /// Fold pointer motion into the OS bytes even when the OS source worked.
    pub allow_motion_fallback: bool,
}

/// Why a generation request failed.
#[derive(Clone, Copy, Debug, PartialEq, Eq, Structural)]
pub enum GenerationError {
    /// No character class was selected.
    EmptyAlphabet,
    /// Pointer sampling was under way and the pointer could not be read.
    MotionUnavailable,
    /// The mapped bytes did not decode as text.
    InternalEncodingFailure,
}

/// Each byte read as the character of the same code.
pub open spec fn ascii_chars(bytes: Seq<u8>) -> Seq<char> {
    bytes.map_values(|b: u8| b as char)
}

/// Every byte is below 0x80.
pub open spec fn all_ascii(bytes: Seq<u8>) -> bool {
    forall|i: int| 0 <= i < bytes.len() ==> #[trigger] bytes[i] < 0x80
}

/// The string that a finished buffer becomes under a selection.
pub open spec fn output_spec(buffer: Seq<u8>, classes: ClassSelection) -> Seq<char> {
    ascii_chars(map_bytes_spec(buffer, alphabet_of(classes)))
}

/// The pointer sampling a request runs: its sample target, or none.
pub open spec fn motion_plan(config: GenerationConfig, fallback_required: bool) -> Option<nat> {
    if fallback_required {
        Some(FALLBACK_MOTION_SECONDS as nat * TICKS_PER_SECOND as nat)
    } else if config.allow_motion_fallback {
        Some(BASE_MOTION_SECONDS as nat * TICKS_PER_SECOND as nat)
    } else {
        None
    }
}

/// The mixer a request starts with.
pub open spec fn planned_mixer(config: GenerationConfig, fallback_required: bool) -> Option<
    MixerView,
> {
    match motion_plan(config, fallback_required) {
        Some(target) => Some(fresh_mixer(target, config.length as nat)),
        None => None,
    }
}

/// Relies on `String::from_utf8`: a byte vector that is valid UTF-8 becomes
/// a `String`. Bytes below 0x80 are valid UTF-8, one character each, with
/// the same code.
#[verifier::external_body]
fn string_from_bytes(bytes: Vec<u8>) -> (r: Option<String>)
    ensures
        all_ascii(bytes@) ==> r is Some && r->Some_0@ == ascii_chars(bytes@),
{
    String::from_utf8(bytes).ok()
}

/// One generation request in progress: its buffer, and the pointer sampling
/// still to run on it.
pub struct Generation {
    config: GenerationConfig,
    buffer: Vec<u8>,
    mixer: Option<MotionMixer>,
}

impl Generation {
    pub closed spec fn config(&self) -> GenerationConfig {
        self.config
    }

    pub closed spec fn buffer(&self) -> Seq<u8> {
        self.buffer@
    }

    pub closed spec fn mixer(&self) -> Option<MixerView> {
        match self.mixer {
            Some(m) => Some(m@),
            None => None,
        }
    }

    pub open spec fn wf(&self) -> bool {
        &&& self.config().length >= 1
        &&& !self.config().classes.is_empty_spec()
        &&& self.buffer().len() == self.config().length
        &&& self.mixer() matches Some(m) ==> m.wf() && m.width == self.config().length
    }

    pub open spec fn motion_pending_spec(&self) -> bool {
        self.mixer() matches Some(m) && !m.is_done()
    }

    /// Starts a request from the outcome of the OS source: the buffer as
    /// given, with pointer sampling planned when the OS source failed (for
    /// twice the base budget) or when the config allows it. Fails when no
    /// class is selected.
    pub fn begin(config: GenerationConfig, acquired: Acquired) -> (r: Result<
        Generation,
        GenerationError,
    >)
        requires
            config.length >= 1 || config.classes.is_empty_spec(),
            acquired.buffer@.len() == config.length,
        ensures
            r is Err <==> config.classes.is_empty_spec(),
            r is Err ==> r == Err::<Generation, GenerationError>(GenerationError::EmptyAlphabet),
            r matches Ok(g) ==> {
                &&& g.wf()
                &&& g.config() == config
                &&& g.buffer() == acquired.buffer@
                &&& g.mixer() == planned_mixer(config, acquired.fallback_required)
            },
    {
        if config.classes.is_empty() {
            return Err(GenerationError::EmptyAlphabet);
        }
        let mixer = if acquired.fallback_required || config.allow_motion_fallback {
            let seconds = motion_seconds(acquired.fallback_required);
            Some(MotionMixer::new(seconds, config.length as usize))
        } else {
            None
        };
        Ok(Generation { config, buffer: acquired.buffer, mixer })
    }

    /// Starts a request: checks the selection first, whatever the length,
    /// and only then reads the OS source. When the OS source fails the buffer is all zeros and the
    /// doubled pointer sampling is planned.
    pub fn start(config: GenerationConfig) -> (r: Result<Generation, GenerationError>)
        requires
            config.length >= 1 || config.classes.is_empty_spec(),
        ensures
            r is Err <==> config.classes.is_empty_spec(),
            r is Err ==> r == Err::<Generation, GenerationError>(GenerationError::EmptyAlphabet),
            r matches Ok(g) ==> {
                &&& g.wf()
                &&& g.config() == config
                &&& g.mixer() == planned_mixer(config, false) || (g.mixer() == planned_mixer(
                    config,
                    true,
                ) && g.buffer() == zeros(config.length as nat))
            },
    {
        if config.classes.is_empty() {
            return Err(GenerationError::EmptyAlphabet);
        }
        let acquired = acquire(config.length);
        Generation::begin(config, acquired)
    }

    /// True while pointer samples are still owed.
    pub fn motion_pending(&self) -> (r: bool)
        ensures
            r == self.motion_pending_spec(),
    {
        match &self.mixer {
            Some(m) => !m.is_done(),
            None => false,
        }
    }

    /// Folds the outcome of one pointer reading into the buffer; a failed
    /// reading ends the request with `MotionUnavailable`.
    pub fn feed_reading(&mut self, reading: Option<(i32, i32)>) -> (r: Result<
        Pause,
        GenerationError,
    >)
        requires
            old(self).wf(),
            old(self).motion_pending_spec(),
        ensures
            final(self).wf(),
            final(self).config() == old(self).config(),
            final(self).mixer() is Some,
            reading is None ==> r == Err::<Pause, GenerationError>(
                GenerationError::MotionUnavailable,
            ) && final(self).mixer() == old(self).mixer() && final(self).buffer() == old(
                self,
            ).buffer(),
            reading is Some ==> ({
                let (x, y) = reading->0;
                let m = old(self).mixer()->0;
                if m.is_duplicate(x, y) {
                    &&& r == Ok::<Pause, GenerationError>(Pause::AfterDuplicate)
                    &&& final(self).mixer() == old(self).mixer()
                    &&& final(self).buffer() == old(self).buffer()
                } else {
                    &&& r == Ok::<Pause, GenerationError>(Pause::AfterSample)
                    &&& final(self).mixer() == Some(m.after_sample(x, y))
                    &&& final(self).buffer() == mixed_buffer(old(self).buffer(), m, x, y)
                }
            }),
    {
        let mut mixer = self.mixer.take().unwrap();
        let r = mixer.feed_reading(&mut self.buffer, reading);
        self.mixer = Some(mixer);
        match r {
            Ok(pause) => Ok(pause),
            Err(_) => Err(GenerationError::MotionUnavailable),
        }
    }

    /// Maps the buffer onto the selection's alphabet and returns it as text:
    /// each byte `b` becomes `alphabet[b mod |alphabet|]`.
    pub fn finish(self) -> (r: Result<String, GenerationError>)
        requires
            self.wf(),
            !self.motion_pending_spec(),
        ensures
            r matches Ok(s) && s@ == output_spec(self.buffer(), self.config().classes),
            r matches Ok(s) && s@.len() == self.config().length,
            r matches Ok(s) && forall|i: int|
                0 <= i < s@.len() ==> ascii_chars(alphabet_of(self.config().classes)).contains(
                    #[trigger] s@[i],
                ),
    {
        let ghost start = self.buffer@;
        let ghost classes = self.config.classes;
        let mut buffer = self.buffer;
        let mapped = bytes_to_utfchars(&mut buffer, &self.config.classes);
        if mapped.is_err() {
            return Err(GenerationError::EmptyAlphabet);
        }
        proof {
            lemma_output_in_alphabet(start, classes);
            lemma_alphabet_ascii(classes);
            assert forall|i: int| 0 <= i < buffer@.len() implies #[trigger] buffer@[i] < 0x80 by {
                let a = alphabet_of(classes);
                let k = (start[i] as int) % (a.len() as int);
                assert(buffer@[i] == a[k]);
            }
        }
        match string_from_bytes(buffer) {
            Some(s) => Ok(s),
            None => Err(GenerationError::InternalEncodingFailure),
        }
    }
}

/// Every output string has one character per buffer byte, each a member of
/// the selection's alphabet.
pub proof fn lemma_output_in_alphabet(buffer: Seq<u8>, classes: ClassSelection)
    requires
        !classes.is_empty_spec(),
    ensures
        output_spec(buffer, classes).len() == buffer.len(),
        forall|i: int|
            0 <= i < buffer.len() ==> ascii_chars(alphabet_of(classes)).contains(
                #[trigger] output_spec(buffer, classes)[i],
            ),
{
    let a = alphabet_of(classes);
    crate::charset::lemma_alphabet_empty_iff(classes);
    assert forall|i: int| 0 <= i < buffer.len() implies ascii_chars(a).contains(
        #[trigger] output_spec(buffer, classes)[i],
    ) by {
        let k = (buffer[i] as int) % (a.len() as int);
        assert(ascii_chars(a)[k] == output_spec(buffer, classes)[i]);
    }
}

} // verus!

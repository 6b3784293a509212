//! Display labels for commands: a raw name plus a display form padded or
//! truncated to a fixed width.

use vstd::prelude::*;

use crate::text::push_char;

verus! {

/// A run of `k` dots.
pub open spec fn dot_run(k: nat) -> Seq<char> {
    Seq::new(k, |i: int| '.')
}

/// A run of `k` spaces.
pub open spec fn space_run(k: nat) -> Seq<char> {
    Seq::new(k, |i: int| ' ')
}

/// How many characters the truncation marker takes: the overhang, capped at
/// three.
pub open spec fn marker_len(len: int, limit: int) -> int {
    if len - limit < 3 {
        len - limit
    } else {
        3
    }
}

/// The display form of a raw label under a width limit: a label longer than
/// the limit is cut to `limit - k` characters followed by `k` dots; a shorter
/// one is padded with spaces; one of exactly the limit is kept as it is.
pub open spec fn label_display_spec(raw: Seq<char>, limit: int) -> Seq<char> {
    if raw.len() > limit {
        let k = marker_len(raw.len() as int, limit);
        raw.subrange(0, limit - k) + dot_run(k as nat)
    } else if raw.len() < limit {
        raw + space_run((limit - raw.len()) as nat)
    } else {
        raw
    }
}

/// The display width is always exactly the limit, and the display opens with
/// the surviving prefix of the raw label.
pub proof fn lemma_label_display_invariant(raw: Seq<char>, limit: int)
    requires
        0 <= limit,
        raw.len() > limit ==> marker_len(raw.len() as int, limit) <= limit,
    ensures
        label_display_spec(raw, limit).len() == limit,
        raw.len() <= limit ==> label_display_spec(raw, limit).subrange(0, raw.len() as int)
            == raw,
        raw.len() > limit ==> label_display_spec(raw, limit).subrange(
            0,
            limit - marker_len(raw.len() as int, limit),
        ) == raw.subrange(0, limit - marker_len(raw.len() as int, limit)),
{
    if raw.len() > limit {
        let k = marker_len(raw.len() as int, limit);
        assert(label_display_spec(raw, limit).subrange(0, limit - k) =~= raw.subrange(
            0,
            limit - k,
        ));
    } else if raw.len() < limit {
        assert(label_display_spec(raw, limit).subrange(0, raw.len() as int) =~= raw);
    } else {
        assert(label_display_spec(raw, limit).subrange(0, raw.len() as int) =~= raw);
    }
}

/// A command's label: the raw name and, when padding or truncation is
/// needed, the fixed-width display form.
#[derive(Debug, Clone)]
pub struct Label {
    pub label: String,
    pub display: Option<String>,
}

impl Label {
    /// The display form: the fixed-width variant when one is stored, the raw
    /// label otherwise.
    pub open spec fn display_view(&self) -> Seq<char> {
        match self.display {
            Some(d) => d@,
            None => self.label@,
        }
    }

    pub fn new(label: String, display: Option<String>) -> (r: Self)
        ensures
            r.label@ == label@,
            r.display is Some <==> display is Some,
            r.display matches Some(d) ==> display matches Some(d0) && d@ == d0@,
    {
        Self { label, display }
    }

    pub fn label(&self) -> (r: &str)
        ensures
            r@ == self.label@,
    {
        self.label.as_str()
    }

    pub fn display(&self) -> (r: &str)
        ensures
            r@ == self.display_view(),
    {
        match &self.display {
            Some(d) => d.as_str(),
            None => self.label.as_str(),
        }
    }

    /// Builds the label whose display form follows the width rule of
    /// [`label_display_spec`].  Widths are measured in characters.
    pub fn from_label(label: String, max_label_length: usize) -> (r: Self)
        requires
            label@.len() > max_label_length ==> marker_len(
                label@.len() as int,
                max_label_length as int,
            ) <= max_label_length,
        ensures
            r.label@ == label@,
            r.display_view() == label_display_spec(label@, max_label_length as int),
            r.display is Some <==> label@.len() != max_label_length,
    {
        let len = label.unicode_len();
        let display: Option<String> = if len > max_label_length {
            let len_trim: usize = if len - max_label_length < 3 {
                len - max_label_length
            } else {
                3
            };
            let mut d = label.as_str().substring_char(0, max_label_length - len_trim).to_owned();
            let mut i: usize = 0;
            while i < len_trim
                invariant
                    i <= len_trim,
                    d@ == label@.subrange(0, max_label_length - len_trim) + dot_run(i as nat),
                decreases len_trim - i,
            {
                push_char(&mut d, '.');
                i = i + 1;
                assert(d@ =~= label@.subrange(0, max_label_length - len_trim) + dot_run(
                    i as nat,
                ));
            }
            Some(d)
        } else if len < max_label_length {
            let mut d = label.clone();
            let mut i: usize = 0;
            while i < max_label_length - len
                invariant
                    i <= max_label_length - len,
                    len == label@.len(),
                    d@ == label@ + space_run(i as nat),
                decreases max_label_length - len - i,
            {
                push_char(&mut d, ' ');
                i = i + 1;
                assert(d@ =~= label@ + space_run(i as nat));
            }
            Some(d)
        } else {
            None
        };
        proof {
            assert(label@ + space_run(0) =~= label@);
        }
        Self { label, display }
    }
}

} // verus!

use vstd::prelude::*;

verus! {

/// Immutable job configuration, derived once from the user-selected metrics
/// and shared read-only by every counting task.
#[derive(Clone)]
pub struct Options {
    pub show_bytes: bool,
    pub show_words: bool,
    pub show_lines: bool,
    pub show_chars: bool,
    pub utf_required: bool,
    pub show_dirs: bool,
}

impl Options {
    /// Configuration invariant: at least one metric is selected, and
    /// `utf_required` caches whether the content must be decoded as UTF-8
    /// (needed exactly when words or characters are counted).
    pub open spec fn wf(self) -> bool {
        &&& self.utf_required == (self.show_words || self.show_chars)
        &&& (self.show_bytes || self.show_words || self.show_lines || self.show_chars)
    }

    /// Builds the effective configuration. When none of the four metric
    /// flags is set, lines, words, and bytes are selected by default
    /// (characters stay off); this substitution is silent, not an error.
    pub fn new(
        show_bytes: bool,
        show_words: bool,
        show_lines: bool,
        show_chars: bool,
        show_dirs: bool,
    ) -> (r: Self)
        ensures
            r.wf(),
            r.show_dirs == show_dirs,
            (!show_bytes && !show_words && !show_lines && !show_chars) ==> (r.show_bytes
                && r.show_words && r.show_lines && !r.show_chars),
            (show_bytes || show_words || show_lines || show_chars) ==> (r.show_bytes == show_bytes
                && r.show_words == show_words && r.show_lines == show_lines && r.show_chars
                == show_chars),
    {
        if !show_words && !show_lines && !show_bytes && !show_chars {
            Options {
                show_words: true,
                show_bytes: true,
                show_lines: true,
                show_chars: false,
                utf_required: true,
                show_dirs,
            }
        } else {
            Options {
                show_words,
                show_bytes,
                show_lines,
                show_chars,
                utf_required: show_words || show_chars,
                show_dirs,
            }
        }
    }

    /// True when some metric besides the byte count is requested — lines,
    /// words, or characters — so the content itself must be scanned.
    pub fn anything_but_bytes(&self) -> (r: bool)
        ensures
            r == (self.show_lines || self.show_words || self.show_chars),
    {
        self.show_lines || self.show_words || self.show_chars
    }
}

} // verus!

//! Options for writing images in a given format.
use vstd::prelude::*;

verus! {

/// The value stored for `key` among `options`, looked up from the front.
pub open spec fn option_value(options: Seq<(String, String)>, key: Seq<char>) -> Option<Seq<char>>
    decreases options.len(),
{
    if options.len() == 0 {
        None
    } else if options[0].0@ == key {
        Some(options[0].1@)
    } else {
        option_value(options.drop_first(), key)
    }
}

/// No key occurs twice among `options`.
pub open spec fn keys_unique(options: Seq<(String, String)>) -> bool {
    forall|i: int, j: int|
        0 <= i < j < options.len() ==> #[trigger] options[i].0@ != #[trigger] options[j].0@
}

/// Quality, compression and format-specific settings for writing an image.
#[derive(Debug)]
pub struct ImageFormatOptions {
    /// Quality (0 to 100) for lossy formats.
    quality: u8,
    /// Whether lossless compression is asked for, where the format has it.
    lossless: bool,
    /// Format-specific settings, each key at most once.
    extra_options: Vec<(String, String)>,
}

impl ImageFormatOptions {
    pub closed spec fn quality_spec(&self) -> u8 {
        self.quality
    }

    pub closed spec fn lossless_spec(&self) -> bool {
        self.lossless
    }

    /// The format-specific settings, in the order they were first given.
    pub closed spec fn extra_spec(&self) -> Seq<(String, String)> {
        self.extra_options@
    }

    /// Quality is at most 100, and each format-specific key occurs once.
    #[verifier::type_invariant]
    pub open spec fn well_formed(&self) -> bool {
        &&& self.quality_spec() <= 100
        &&& keys_unique(self.extra_spec())
    }

    /// Settings for JPEG: quality 85, lossy.
    pub fn jpeg() -> (r: Self)
        ensures
            r.well_formed(),
            r.quality_spec() == 85,
            !r.lossless_spec(),
            r.extra_spec().len() == 0,
    {
        ImageFormatOptions { quality: 85, lossless: false, extra_options: Vec::new() }
    }

    /// Settings for PNG: quality 100, lossless.
    pub fn png() -> (r: Self)
        ensures
            r.well_formed(),
            r.quality_spec() == 100,
            r.lossless_spec(),
            r.extra_spec().len() == 0,
    {
        ImageFormatOptions { quality: 100, lossless: true, extra_options: Vec::new() }
    }

    /// Settings for WebP: quality 80, lossy.
    pub fn webp() -> (r: Self)
        ensures
            r.well_formed(),
            r.quality_spec() == 80,
            !r.lossless_spec(),
            r.extra_spec().len() == 0,
    {
        ImageFormatOptions { quality: 80, lossless: false, extra_options: Vec::new() }
    }

    /// These settings with the quality set to `quality`, at most 100.
    pub fn with_quality(self, quality: u8) -> (r: Self)
        ensures
            r.quality_spec() == if quality <= 100 {
                quality
            } else {
                100
            },
            r.lossless_spec() == self.lossless_spec(),
            r.extra_spec() == self.extra_spec(),
            r.well_formed(),
    {
        proof {
            use_type_invariant(&self);
        }
        let quality = if quality <= 100 {
            quality
        } else {
            100
        };
        ImageFormatOptions { quality, lossless: self.lossless, extra_options: self.extra_options }
    }

    /// These settings with lossless compression on or off.
    pub fn with_lossless(self, lossless: bool) -> (r: Self)
        ensures
            r.lossless_spec() == lossless,
            r.quality_spec() == self.quality_spec(),
            r.extra_spec() == self.extra_spec(),
            r.well_formed(),
    {
        proof {
            use_type_invariant(&self);
        }
        ImageFormatOptions { quality: self.quality, lossless, extra_options: self.extra_options }
    }

    /// These settings with the format-specific setting `key` set to `value`,
    /// replacing an earlier value for `key`.
    pub fn with_option(self, key: &str, value: &str) -> (r: Self)
        ensures
            r.well_formed(),
            r.quality_spec() == self.quality_spec(),
            r.lossless_spec() == self.lossless_spec(),
            option_value(r.extra_spec(), key@) == Some(value@),
            forall|k: Seq<char>|
                k != key@ ==> option_value(r.extra_spec(), k) == option_value(self.extra_spec(), k),
    {
        proof {
            use_type_invariant(&self);
        }
        let quality = self.quality;
        let lossless = self.lossless;
        let mut extra_options = self.extra_options;
        let key_string = key.to_owned();
        let value_string = value.to_owned();
        let n = extra_options.len();
        let mut i: usize = 0;
        let mut found = false;
        while i < n && !found
            invariant
                n == extra_options@.len(),
                extra_options@ == self.extra_spec(),
                i <= n,
                key_string@ == key@,
                found ==> i < n && extra_options@[i as int].0@ == key@,
                forall|j: int| 0 <= j < i ==> extra_options@[j].0@ != key@,
            decreases 2 * (n - i) + (if found {
                0int
            } else {
                1int
            }),
        {
            if extra_options[i].0 == key_string {
                found = true;
            } else {
                i = i + 1;
            }
        }
        let ghost before = extra_options@;
        if i < n {
            extra_options[i] = (key_string, value_string);
        } else {
            extra_options.push((key_string, value_string));
        }
        proof {
            lemma_lookup_after_store(before, i as int, key@, value@, extra_options@);
        }
        ImageFormatOptions { quality, lossless, extra_options }
    }

    /// Quality for lossy formats.
    pub fn quality(&self) -> (r: u8)
        ensures
            r == self.quality_spec(),
    {
        self.quality
    }

    /// Whether lossless compression is asked for.
    pub fn lossless(&self) -> (r: bool)
        ensures
            r == self.lossless_spec(),
    {
        self.lossless
    }

    /// The value of the format-specific setting `key`, if it is set.
    pub fn option(&self, key: &str) -> (r: Option<String>)
        ensures
            r.is_some() == option_value(self.extra_spec(), key@).is_some(),
            r.is_some() ==> Some(r.unwrap()@) == option_value(self.extra_spec(), key@),
    {
        let key_string = key.to_owned();
        let n = self.extra_options.len();
        let mut i: usize = 0;
        proof {
            assert(self.extra_options@.subrange(0, n as int) =~= self.extra_options@);
        }
        while i < n
            invariant
                n == self.extra_options@.len(),
                i <= n,
                key_string@ == key@,
                option_value(self.extra_options@, key@) == option_value(
                    self.extra_options@.subrange(i as int, n as int),
                    key@,
                ),
            decreases n - i,
        {
            proof {
                assert(self.extra_options@.subrange(i as int, n as int).drop_first()
                    =~= self.extra_options@.subrange(i + 1, n as int));
            }
            if self.extra_options[i].0 == key_string {
                return Some(self.extra_options[i].1.clone());
            }
            i = i + 1;
        }
        None
    }
}

impl Default for ImageFormatOptions {
    fn default() -> (r: Self)
        ensures
            r.well_formed(),
            r.quality_spec() == 90,
            !r.lossless_spec(),
            r.extra_spec().len() == 0,
    {
        ImageFormatOptions { quality: 90, lossless: false, extra_options: Vec::new() }
    }
}

impl Clone for ImageFormatOptions {
    fn clone(&self) -> (r: Self)
        ensures
            r.quality_spec() == self.quality_spec(),
            r.lossless_spec() == self.lossless_spec(),
            r.extra_spec() == self.extra_spec(),
    {
        proof {
            use_type_invariant(self);
        }
        let mut extra_options: Vec<(String, String)> = Vec::new();
        let n = self.extra_options.len();
        let mut i: usize = 0;
        while i < n
            invariant
                n == self.extra_options@.len(),
                i <= n,
                extra_options@ == self.extra_options@.subrange(0, i as int),
            decreases n - i,
        {
            let key = self.extra_options[i].0.clone();
            let value = self.extra_options[i].1.clone();
            extra_options.push((key, value));
            i = i + 1;
            proof {
                assert(extra_options@ =~= self.extra_options@.subrange(0, i as int));
            }
        }
        proof {
            assert(extra_options@ =~= self.extra_options@);
        }
        ImageFormatOptions { quality: self.quality, lossless: self.lossless, extra_options }
    }
}

proof fn lemma_lookup_absent(s: Seq<(String, String)>, key: Seq<char>)
    requires
        forall|j: int| 0 <= j < s.len() ==> s[j].0@ != key,
    ensures
        option_value(s, key) == None::<Seq<char>>,
    decreases s.len(),
{
    if s.len() > 0 {
        lemma_lookup_absent(s.drop_first(), key);
    }
}

proof fn lemma_lookup_at(s: Seq<(String, String)>, i: int, key: Seq<char>)
    requires
        0 <= i < s.len(),
        s[i].0@ == key,
        forall|j: int| 0 <= j < i ==> s[j].0@ != key,
    ensures
        option_value(s, key) == Some(s[i].1@),
    decreases i,
{
    if i > 0 {
        lemma_lookup_at(s.drop_first(), i - 1, key);
    }
}

proof fn lemma_lookup_unique(s: Seq<(String, String)>, key: Seq<char>)
    requires
        keys_unique(s),
    ensures
        forall|i: int| 0 <= i < s.len() && s[i].0@ == key ==> option_value(s, key) == Some(s[i].1@),
{
    assert forall|i: int| 0 <= i < s.len() && s[i].0@ == key implies option_value(s, key) == Some(
        s[i].1@,
    ) by {
        assert forall|j: int| 0 <= j < i implies s[j].0@ != key by {
            assert(s[j].0@ != s[i].0@);
        }
        lemma_lookup_at(s, i, key);
    }
}

proof fn lemma_lookup_after_store(
    before: Seq<(String, String)>,
    i: int,
    key: Seq<char>,
    value: Seq<char>,
    after: Seq<(String, String)>,
)
    requires
        keys_unique(before),
        0 <= i <= before.len(),
        forall|j: int| 0 <= j < i ==> before[j].0@ != key,
        i < before.len() ==> before[i].0@ == key,
        i < before.len() ==> after.len() == before.len() && after[i].0@ == key && after[i].1@
            == value && forall|j: int| 0 <= j < before.len() && j != i ==> after[j] == before[j],
        i == before.len() ==> after.len() == before.len() + 1 && after[i].0@ == key && after[i].1@
            == value && forall|j: int| 0 <= j < before.len() ==> after[j] == before[j],
    ensures
        keys_unique(after),
        option_value(after, key) == Some(value),
        forall|k: Seq<char>| k != key ==> option_value(after, k) == option_value(before, k),
{
    assert forall|a: int, b: int| 0 <= a < b < after.len() implies #[trigger] after[a].0@
        != #[trigger] after[b].0@ by {
        if a != i && b != i {
            assert(before[a].0@ != before[b].0@);
        } else if a == i {
            if i < before.len() {
                assert(before[b].0@ != before[i].0@);
            }
        } else {
            if i < before.len() {
                assert(before[a].0@ != before[i].0@);
            }
        }
    }
    lemma_lookup_unique(after, key);
    assert forall|k: Seq<char>| k != key implies option_value(after, k) == option_value(before, k) by {
        lemma_lookup_unique(after, k);
        lemma_lookup_unique(before, k);
        if exists|j: int| 0 <= j < before.len() && before[j].0@ == k {
            let j = choose|j: int| 0 <= j < before.len() && before[j].0@ == k;
            assert(j != i);
            assert(after[j] == before[j]);
        } else {
            lemma_lookup_absent(before, k);
            assert forall|j: int| 0 <= j < after.len() implies after[j].0@ != k by {
                if j != i {
                    assert(after[j] == before[j]);
                }
            }
            lemma_lookup_absent(after, k);
        }
    }
}

} // verus!

use vstd::prelude::*;

verus! {

/// Padding placed around separators in rendered output: one space
/// normally, nothing when compact output is requested.
pub open spec fn spec_spacing(compact: bool) -> Seq<char> {
    if compact {
        Seq::empty()
    } else {
        " "@
    }
}

/// The key/value separator: a colon for json output, an equals sign
/// otherwise, padded on both sides by the spacing.
pub open spec fn spec_separator(compact: bool, json: bool) -> Seq<char> {
    spec_spacing(compact) + (if json {
        ":"@
    } else {
        "="@
    }) + spec_spacing(compact)
}

fn spacing(compact: bool) -> (r: String)
    ensures
        r@ == spec_spacing(compact),
{
    if compact {
        String::new()
    } else {
        String::from_str(" ")
    }
}

fn separator(compact: bool, json: bool) -> (r: String)
    ensures
        r@ == spec_separator(compact, json),
{
    let mut s = spacing(compact);
    if json {
        s.append(":");
    } else {
        s.append("=");
    }
    let pad = spacing(compact);
    s.append(pad.as_str());
    s
}

/// The output options of one rendering run, with the separator and the
/// spacing derived once at construction.  Raw output and json output
/// are mutually exclusive.
#[derive(Debug)]
pub struct Settings {
    pub raw_output: bool,
    pub compact_output: bool,
    pub json_output: bool,
    pub separator: String,
    pub spacing: String,
}

impl Settings {
    /// The construction invariant: the exclusive flags do not clash and
    /// the derived strings agree with the flags.
    pub open spec fn wf(&self) -> bool {
        &&& !(self.raw_output && self.json_output)
        &&& self.separator@ == spec_separator(self.compact_output, self.json_output)
        &&& self.spacing@ == spec_spacing(self.compact_output)
    }

    fn build(raw_output: bool, json_output: bool, compact_output: bool) -> (r: Settings)
        requires
            !(raw_output && json_output),
        ensures
            r.raw_output == raw_output,
            r.json_output == json_output,
            r.compact_output == compact_output,
            r.wf(),
    {
        Settings {
            raw_output,
            json_output,
            compact_output,
            separator: separator(compact_output, json_output),
            spacing: spacing(compact_output),
        }
    }

    /// Settings with every default: raw output on, everything else off.
    pub fn new() -> (r: Settings)
        ensures
            r.raw_output == true,
            r.json_output == false,
            r.compact_output == false,
            r.wf(),
    {
        Settings::build(true, false, false)
    }

    /// A builder starting from the default flags.
    pub fn builder() -> (r: SettingsBuilder)
        ensures
            r.spec_raw() == true,
            r.spec_json() == false,
            r.spec_compact() == false,
    {
        SettingsBuilder::new()
    }
}

impl Default for Settings {
    fn default() -> (r: Settings)
        ensures
            r.raw_output == true,
            r.json_output == false,
            r.compact_output == false,
            r.wf(),
    {
        Settings::build(true, false, false)
    }
}

/// Accumulates output flags before the derived strings are computed.
/// Raw output and json output exclude each other: enabling one clears
/// the other, so the flags can never clash.
#[derive(Debug)]
pub struct SettingsBuilder {
    raw_output: bool,
    compact_output: bool,
    json_output: bool,
}

impl Default for SettingsBuilder {
    fn default() -> (r: SettingsBuilder)
        ensures
            r.spec_raw() == true,
            r.spec_json() == false,
            r.spec_compact() == false,
    {
        SettingsBuilder { raw_output: true, compact_output: false, json_output: false }
    }
}

impl SettingsBuilder {
    /// The raw-output flag as currently set.
    pub closed spec fn spec_raw(&self) -> bool {
        self.raw_output
    }

    /// The compact-output flag as currently set.
    pub closed spec fn spec_compact(&self) -> bool {
        self.compact_output
    }

    /// The json-output flag as currently set.
    pub closed spec fn spec_json(&self) -> bool {
        self.json_output
    }

    /// A builder with the default flags.
    pub fn new() -> (r: Self)
        ensures
            r.spec_raw() == true,
            r.spec_json() == false,
            r.spec_compact() == false,
    {
        SettingsBuilder::default()
    }

    /// Enabling raw output also disables json output.
    pub fn raw_output(self, enable: bool) -> (r: Self)
        ensures
            r.spec_raw() == enable,
            r.spec_compact() == self.spec_compact(),
            r.spec_json() == if enable {
                false
            } else {
                self.spec_json()
            },
    {
        let mut b = self;
        b.raw_output = enable;
        if enable {
            b.json_output = false;
        }
        b
    }

    /// Set the compact-output flag.
    pub fn compact_output(self, enable: bool) -> (r: Self)
        ensures
            r.spec_compact() == enable,
            r.spec_raw() == self.spec_raw(),
            r.spec_json() == self.spec_json(),
    {
        let mut b = self;
        b.compact_output = enable;
        b
    }

    /// Enabling json output also disables raw output.
    pub fn json_output(self, enable: bool) -> (r: Self)
        ensures
            r.spec_json() == enable,
            r.spec_compact() == self.spec_compact(),
            r.spec_raw() == if enable {
                false
            } else {
                self.spec_raw()
            },
    {
        let mut b = self;
        b.json_output = enable;
        if enable {
            b.raw_output = false;
        }
        b
    }

    /// Derive the settings from the collected flags.
    pub fn build(self) -> (r: Settings)
        requires
            !(self.spec_raw() && self.spec_json()),
        ensures
            r.raw_output == self.spec_raw(),
            r.json_output == self.spec_json(),
            r.compact_output == self.spec_compact(),
            r.wf(),
    {
        Settings::build(self.raw_output, self.json_output, self.compact_output)
    }
}

} // verus!

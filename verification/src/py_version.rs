//! The supported interpreter versions of the worker's default language
//! runtime, with their renderings and parsers.

use vstd::prelude::*;
use crate::text::{string_from_ascii, str_eq};

verus! {

/// One supported interpreter version.
#[derive(Clone, Copy, PartialEq, Eq, Structural, Debug)]
pub enum PyVersion {
    Py310,
    Py311,
    Py312,
    Py313,
}

/// The default version, used where a configured value cannot be parsed.
pub open spec fn spec_default_py() -> PyVersion {
    PyVersion::Py311
}

/// The dotted rendering of a version, e.g. `3.11`.
pub open spec fn spec_with_dot(v: PyVersion) -> Seq<char> {
    match v {
        PyVersion::Py310 => "3.10"@,
        PyVersion::Py311 => "3.11"@,
        PyVersion::Py312 => "3.12"@,
        PyVersion::Py313 => "3.13"@,
    }
}

/// The undotted rendering of a version, e.g. `311`.
pub open spec fn spec_no_dot(v: PyVersion) -> Seq<char> {
    match v {
        PyVersion::Py310 => "310"@,
        PyVersion::Py311 => "311"@,
        PyVersion::Py312 => "312"@,
        PyVersion::Py313 => "313"@,
    }
}

/// The version a dotted rendering denotes; `default` denotes the default.
pub open spec fn spec_from_with_dots(s: Seq<char>) -> Option<PyVersion> {
    if s == "3.10"@ {
        Some(PyVersion::Py310)
    } else if s == "3.11"@ {
        Some(PyVersion::Py311)
    } else if s == "3.12"@ {
        Some(PyVersion::Py312)
    } else if s == "3.13"@ {
        Some(PyVersion::Py313)
    } else if s == "default"@ {
        Some(spec_default_py())
    } else {
        None
    }
}

/// The version an undotted rendering denotes; `default` denotes the default.
pub open spec fn spec_from_no_dots(s: Seq<char>) -> Option<PyVersion> {
    if s == "310"@ {
        Some(PyVersion::Py310)
    } else if s == "311"@ {
        Some(PyVersion::Py311)
    } else if s == "312"@ {
        Some(PyVersion::Py312)
    } else if s == "313"@ {
        Some(PyVersion::Py313)
    } else if s == "default"@ {
        Some(spec_default_py())
    } else {
        None
    }
}

/// The version annotation line cleaned for parsing: spaces removed, then a
/// leading `#py` marker removed.
pub open spec fn spec_cleanup_annotation(s: Seq<char>) -> Seq<char> {
    let no_spaces = s.filter(|c: char| c != ' ');
    if no_spaces.len() >= 3 && no_spaces.subrange(0, 3) == "#py"@ {
        no_spaces.subrange(3, no_spaces.len() as int)
    } else {
        no_spaces
    }
}

impl PyVersion {
    /// The top-level cache directory of this version, e.g. `python_311`.
    pub fn to_cache_dir_top_level(&self) -> (r: String)
        ensures
            r@ == "python_"@ + spec_no_dot(*self),
    {
        let mut s = "python_".to_owned();
        let n = self.to_string_no_dot();
        s.append(n.as_str());
        s
    }

    /// The undotted rendering, e.g. `311`.
    pub fn to_string_no_dot(&self) -> (r: String)
        ensures
            r@ == spec_no_dot(*self),
    {
        match self {
            PyVersion::Py310 => "310".to_owned(),
            PyVersion::Py311 => "311".to_owned(),
            PyVersion::Py312 => "312".to_owned(),
            PyVersion::Py313 => "313".to_owned(),
        }
    }

    /// The dotted rendering, e.g. `3.11`.
    pub fn to_string_with_dot(&self) -> (r: &str)
        ensures
            r@ == spec_with_dot(*self),
    {
        match self {
            PyVersion::Py310 => "3.10",
            PyVersion::Py311 => "3.11",
            PyVersion::Py312 => "3.12",
            PyVersion::Py313 => "3.13",
        }
    }

    /// Parse a dotted rendering, e.g. `3.11`; `default` names the default
    /// version.
    pub fn from_string_with_dots(value: &str) -> (r: Option<PyVersion>)
        ensures
            r == spec_from_with_dots(value@),
    {
        if str_eq(value, "3.10") {
            Some(PyVersion::Py310)
        } else if str_eq(value, "3.11") {
            Some(PyVersion::Py311)
        } else if str_eq(value, "3.12") {
            Some(PyVersion::Py312)
        } else if str_eq(value, "3.13") {
            Some(PyVersion::Py313)
        } else if str_eq(value, "default") {
            Some(PyVersion::Py311)
        } else {
            None
        }
    }

    /// Parse an undotted rendering, e.g. `311`; `default` names the default
    /// version.
    pub fn from_string_no_dots(value: &str) -> (r: Option<PyVersion>)
        ensures
            r == spec_from_no_dots(value@),
    {
        if str_eq(value, "310") {
            Some(PyVersion::Py310)
        } else if str_eq(value, "311") {
            Some(PyVersion::Py311)
        } else if str_eq(value, "312") {
            Some(PyVersion::Py312)
        } else if str_eq(value, "313") {
            Some(PyVersion::Py313)
        } else if str_eq(value, "default") {
            Some(PyVersion::Py311)
        } else {
            None
        }
    }

    /// Parse a version annotation line, e.g. `# py311`.
    pub fn parse_version(line: &str) -> (r: Option<PyVersion>)
        ensures
            r == spec_from_no_dots(spec_cleanup_annotation(line@)),
    {
        let len = line.unicode_len();
        let mut cleaned: Vec<char> = Vec::new();
        let mut i: usize = 0;
        proof {
            reveal(Seq::filter);
            assert(line@.subrange(0, 0) =~= Seq::<char>::empty());
        }
        while i < len
            invariant
                0 <= i <= len,
                len == line@.len(),
                cleaned@ == line@.subrange(0, i as int).filter(|c: char| c != ' '),
            decreases len - i,
        {
            let c = line.get_char(i);
            proof {
                reveal(Seq::filter);
                let pre = line@.subrange(0, i as int);
                let cur = line@.subrange(0, i + 1);
                assert(cur.drop_last() =~= pre);
                assert(cur.last() == line@[i as int]);
            }
            if c != ' ' {
                cleaned.push(c);
            }
            i = i + 1;
        }
        proof {
            assert(line@.subrange(0, len as int) =~= line@);
        }
        let stripped: Vec<char> = if cleaned.len() >= 3 && cleaned[0] == '#' && cleaned[1] == 'p'
            && cleaned[2] == 'y' {
            proof {
                reveal_strlit("#py");
                assert(cleaned@.subrange(0, 3) =~= "#py"@);
            }
            let mut rest: Vec<char> = Vec::new();
            let mut j: usize = 3;
            while j < cleaned.len()
                invariant
                    3 <= j <= cleaned@.len(),
                    rest@ == cleaned@.subrange(3, j as int),
                decreases cleaned@.len() - j,
            {
                rest.push(cleaned[j]);
                proof {
                    assert(cleaned@.subrange(3, j + 1) =~= cleaned@.subrange(3, j as int).push(
                        cleaned@[j as int],
                    ));
                }
                j = j + 1;
            }
            rest
        } else {
            proof {
                reveal_strlit("#py");
                if cleaned@.len() >= 3 && cleaned@.subrange(0, 3) == "#py"@ {
                    assert(cleaned@[0] == '#' && cleaned@[1] == 'p' && cleaned@[2] == 'y') by {
                        assert(cleaned@.subrange(0, 3)[0] == '#');
                        assert(cleaned@.subrange(0, 3)[1] == 'p');
                        assert(cleaned@.subrange(0, 3)[2] == 'y');
                    }
                }
            }
            cleaned
        };
        if chars_eq_lit(&stripped, "310") {
            Some(PyVersion::Py310)
        } else if chars_eq_lit(&stripped, "311") {
            Some(PyVersion::Py311)
        } else if chars_eq_lit(&stripped, "312") {
            Some(PyVersion::Py312)
        } else if chars_eq_lit(&stripped, "313") {
            Some(PyVersion::Py313)
        } else if chars_eq_lit(&stripped, "default") {
            Some(PyVersion::Py311)
        } else {
            None
        }
    }

    /// Parse the numeric form, e.g. `311`.
    pub fn from_numeric(n: u32) -> (r: Option<PyVersion>)
        ensures
            r == (if n == 310 {
                Some(PyVersion::Py310)
            } else if n == 311 {
                Some(PyVersion::Py311)
            } else if n == 312 {
                Some(PyVersion::Py312)
            } else if n == 313 {
                Some(PyVersion::Py313)
            } else {
                None::<PyVersion>
            }),
    {
        match n {
            310 => Some(PyVersion::Py310),
            311 => Some(PyVersion::Py311),
            312 => Some(PyVersion::Py312),
            313 => Some(PyVersion::Py313),
            _ => None,
        }
    }

    /// The numeric form, e.g. `311`.
    pub fn to_numeric(&self) -> (r: u32)
        ensures
            r == (match *self {
                PyVersion::Py310 => 310u32,
                PyVersion::Py311 => 311u32,
                PyVersion::Py312 => 312u32,
                PyVersion::Py313 => 313u32,
            }),
    {
        match self {
            PyVersion::Py310 => 310,
            PyVersion::Py311 => 311,
            PyVersion::Py312 => 312,
            PyVersion::Py313 => 313,
        }
    }
}

fn chars_eq_lit(v: &Vec<char>, lit: &str) -> (r: bool)
    ensures
        r == (v@ == lit@),
{
    let llen = lit.unicode_len();
    if v.len() != llen {
        proof {
            assert(v@.len() != lit@.len());
        }
        return false;
    }
    let mut i: usize = 0;
    while i < llen
        invariant
            0 <= i <= llen,
            llen == v@.len(),
            llen == lit@.len(),
            forall|j: int| 0 <= j < i ==> v@[j] == lit@[j],
        decreases llen - i,
    {
        if v[i] != lit.get_char(i) {
            return false;
        }
        i = i + 1;
    }
    proof {
        assert(v@ =~= lit@);
    }
    true
}

/// Pad `value` with trailing spaces up to `total_length` characters; a value
/// already long enough is returned unchanged.
pub fn pad_string(value: &str, total_length: usize) -> (r: String)
    ensures
        value@.len() >= total_length ==> r@ == value@,
        value@.len() < total_length ==> r@ == value@ + Seq::new(
            (total_length - value@.len()) as nat,
            |i: int| ' ',
        ),
{
    let len = value.unicode_len();
    if len >= total_length {
        return value.to_owned();
    }
    let mut pad: Vec<u8> = Vec::new();
    let mut i: usize = 0;
    while i < total_length - len
        invariant
            0 <= i <= total_length - len,
            pad@ == Seq::new(i as nat, |j: int| 32u8),
        decreases total_length - len - i,
    {
        pad.push(32u8);
        proof {
            assert(pad@ =~= Seq::new((i + 1) as nat, |j: int| 32u8));
        }
        i = i + 1;
    }
    let mut s = value.to_owned();
    let spaces = string_from_ascii(pad);
    s.append(spaces.as_str());
    proof {
        assert(s@ =~= value@ + Seq::new((total_length - value@.len()) as nat, |i: int| ' '));
    }
    s
}

} // verus!

// Command-line options. Numbers are decimal, or hexadecimal after a `0x` /
// `0X` prefix, read the way Rust's integer parsers read them.
use vstd::prelude::*;
use vstd::string::StringExecFns;

use crate::text::{decimal, digit_char, digits, hex_lower, numeral};

verus! {

/// The value of digit `c` in base 10 or 16 (either case), if it is one.
pub open spec fn digit_of(c: char, radix: nat) -> Option<nat> {
    if '0' <= c && c <= '9' {
        Some((c as nat - 48) as nat)
    } else if radix == 16 && 'a' <= c && c <= 'f' {
        Some((c as nat - 87) as nat)
    } else if radix == 16 && 'A' <= c && c <= 'F' {
        Some((c as nat - 55) as nat)
    } else {
        None
    }
}

/// Whether every character of `s` is a digit of the radix.
pub open spec fn all_digits(s: Seq<char>, radix: nat) -> bool {
    forall|i: int| 0 <= i < s.len() ==> (#[trigger] digit_of(s[i], radix)) is Some
}

/// The value of the digits `s`.
pub open spec fn digits_value(s: Seq<char>, radix: nat) -> nat
    decreases s.len(),
{
    if s.len() == 0 {
        0
    } else {
        digits_value(s.drop_last(), radix) * radix + match digit_of(s.last(), radix) {
            Some(d) => d,
            None => 0,
        }
    }
}

/// What Rust's parser for an unsigned type whose largest value is `max`
/// makes of `s` in `radix`: an optional `+`, then at least one digit, with
/// a value that fits.
pub open spec fn parsed_unsigned(s: Seq<char>, radix: nat, max: nat) -> Option<nat> {
    let body = if s.len() > 0 && s[0] == '+' {
        s.drop_first()
    } else {
        s
    };
    if body.len() > 0 && all_digits(body, radix) && digits_value(body, radix) <= max {
        Some(digits_value(body, radix))
    } else {
        None
    }
}

/// The value of a numeric option: hexadecimal after `0x` or `0X`, else
/// decimal; None when it is not a number that fits.
pub open spec fn option_number(raw: Seq<char>, max: nat) -> Option<nat> {
    if raw.len() >= 2 && raw[0] == '0' && (raw[1] == 'x' || raw[1] == 'X') {
        parsed_unsigned(raw.subrange(2, raw.len() as int), 16, max)
    } else {
        parsed_unsigned(raw, 10, max)
    }
}

/// The message for a numeric option that does not parse.
pub open spec fn bad_number_message(option_name: Seq<char>, kind: Seq<char>, raw: Seq<char>) -> Seq<
    char,
> {
    option_name + " expects a valid "@ + kind + " value, got '"@ + raw + "'"@
}

/// A prefix of valid digits never has a larger value than the whole.
proof fn lemma_digits_monotone(s: Seq<char>, radix: nat, k: int)
    requires
        1 <= radix,
        all_digits(s, radix),
        0 <= k <= s.len(),
    ensures
        digits_value(s.subrange(0, k), radix) <= digits_value(s, radix),
    decreases s.len() - k,
{
    if k < s.len() {
        lemma_digits_monotone(s, radix, k + 1);
        let p = s.subrange(0, k + 1);
        assert(p.drop_last() =~= s.subrange(0, k));
        let v = digits_value(s.subrange(0, k), radix);
        assert(v * radix >= v) by (nonlinear_arith)
            requires
                radix >= 1,
                v >= 0,
        ;
    } else {
        assert(s.subrange(0, k) =~= s);
    }
}

/// The digit characters of `n` in base 10 or 16 are digits of that base
/// whose value is `n`.
proof fn lemma_digit_text_value(n: nat, radix: nat)
    requires
        radix == 10 || radix == 16,
    ensures
        ({
            let t = digits(n, radix).map_values(|d: nat| digit_char(d, false));
            &&& t.len() > 0
            &&& all_digits(t, radix)
            &&& digits_value(t, radix) == n
        }),
    decreases n,
{
    let t = digits(n, radix).map_values(|d: nat| digit_char(d, false));
    if n < radix {
        assert(digits(n, radix) == seq![n]);
        assert(t =~= seq![digit_char(n, false)]);
        assert(t.drop_last() =~= Seq::<char>::empty());
        assert(digit_of(digit_char(n, false), radix) == Some(n));
        assert(digits_value(t.drop_last(), radix) == 0);
        assert(digits_value(t, radix) == n);
        assert(all_digits(t, radix));
    } else {
        lemma_digit_text_value(n / radix, radix);
        let p = digits(n / radix, radix).map_values(|d: nat| digit_char(d, false));
        assert(digits(n, radix) == digits(n / radix, radix).push(n % radix));
        assert(t =~= p.push(digit_char(n % radix, false)));
        assert(t.drop_last() =~= p);
        assert(n % radix < radix) by (nonlinear_arith)
            requires
                radix > 0,
        ;
        assert(digit_of(digit_char(n % radix, false), radix) == Some(n % radix));
        assert forall|i: int| 0 <= i < t.len() implies (#[trigger] digit_of(t[i], radix)) is Some by {
            if i < p.len() {
                assert(t[i] == p[i]);
            }
        }
        assert((n / radix) * radix + n % radix == n) by (nonlinear_arith)
            requires
                radix > 0,
        ;
        assert(t.last() == digit_char(n % radix, false));
        assert(digits_value(t, radix) == digits_value(p, radix) * radix + n % radix);
        assert(digits_value(t, radix) == n);
    }
}

/// The option parser reads back the numbers the reports write: decimal
/// text, and hexadecimal text after `0x`, for every value that fits.
pub proof fn lemma_numbers_read_back(n: nat, max: nat)
    requires
        n <= max,
    ensures
        option_number(decimal(n), max) == Some(n),
        option_number("0x"@ + hex_lower(n), max) == Some(n),
{
    reveal_strlit("0x");
    lemma_digit_text_value(n, 10);
    lemma_digit_text_value(n, 16);
    let d = decimal(n);
    assert(d == digits(n, 10).map_values(|x: nat| digit_char(x, false)));
    assert(digit_of(d[0], 10) is Some);
    if d.len() >= 2 {
        assert(digit_of(d[1], 10) is Some);
    }
    let h = "0x"@ + hex_lower(n);
    assert(hex_lower(n) == digits(n, 16).map_values(|x: nat| digit_char(x, false)));
    assert(h.subrange(2, h.len() as int) =~= hex_lower(n));
    assert(hex_lower(n)[0] != '+') by {
        assert(digit_of(hex_lower(n)[0], 16) is Some);
    }
}

/// The characters of `s`.
pub fn chars_of(s: &str) -> (r: Vec<char>)
    ensures
        r@ == s@,
{
    let mut out: Vec<char> = Vec::new();
    for c in it: s.chars()
        invariant
            out@ == it.seq().subrange(0, it.index() as int),
    {
        out.push(c);
        assert(out@ =~= it.seq().subrange(0, it.index() + 1));
    }
    out
}

/// Whether `a` and `b` hold the same text.
pub fn same_text(a: &str, b: &str) -> (r: bool)
    ensures
        r == (a@ == b@),
{
    let x = chars_of(a);
    let y = chars_of(b);
    if x.len() != y.len() {
        return false;
    }
    let mut i: usize = 0;
    while i < x.len()
        invariant
            i <= x@.len(),
            x@.len() == y@.len(),
            forall|j: int| 0 <= j < i ==> x@[j] == y@[j],
            x@ == a@,
            y@ == b@,
        decreases x@.len() - i,
    {
        if x[i] != y[i] {
            assert(x@[i as int] != y@[i as int]);
            return false;
        }
        i = i + 1;
    }
    assert(x@ =~= y@);
    true
}

/// The value of `c` as a digit of `radix` (10 or 16).
fn digit(c: char, radix: u64) -> (r: Option<u64>)
    requires
        radix == 10 || radix == 16,
    ensures
        match r {
            Some(d) => digit_of(c, radix as nat) == Some(d as nat) && d < radix,
            None => digit_of(c, radix as nat) is None,
        },
{
    if '0' <= c && c <= '9' {
        Some(c as u64 - 48)
    } else if radix == 16 && 'a' <= c && c <= 'f' {
        Some(c as u64 - 87)
    } else if radix == 16 && 'A' <= c && c <= 'F' {
        Some(c as u64 - 55)
    } else {
        None
    }
}

/// Parses `s[start..]` as an unsigned number of `radix` no larger than `max`
/// (see `parsed_unsigned`).
fn parse_unsigned(s: &Vec<char>, start: usize, radix: u64, max: u64) -> (r: Option<u64>)
    requires
        start <= s@.len(),
        radix == 10 || radix == 16,
    ensures
        match r {
            Some(v) => parsed_unsigned(s@.subrange(start as int, s@.len() as int), radix as nat, max as nat)
                == Some(v as nat),
            None => parsed_unsigned(s@.subrange(start as int, s@.len() as int), radix as nat, max as nat)
                is None,
        },
{
    let ghost whole = s@.subrange(start as int, s@.len() as int);
    let mut i = start;
    if i < s.len() && s[i] == '+' {
        i = i + 1;
    }
    let ghost body = s@.subrange(i as int, s@.len() as int);
    assert(body =~= if whole.len() > 0 && whole[0] == '+' {
        whole.drop_first()
    } else {
        whole
    });
    if i >= s.len() {
        return None;
    }
    let body_start = i;
    let mut v: u64 = 0;
    while i < s.len()
        invariant
            start <= body_start <= i <= s@.len(),
            body_start < s@.len(),
            body == s@.subrange(body_start as int, s@.len() as int),
            whole == s@.subrange(start as int, s@.len() as int),
            body == if whole.len() > 0 && whole[0] == '+' {
                whole.drop_first()
            } else {
                whole
            },
            radix == 10 || radix == 16,
            all_digits(body.subrange(0, i - body_start), radix as nat),
            v as nat == digits_value(body.subrange(0, i - body_start), radix as nat),
            v <= max,
        decreases s@.len() - i,
    {
        let ghost k: int = i - body_start;
        let ghost next = body.subrange(0, k + 1);
        assert(next.drop_last() =~= body.subrange(0, k));
        assert(next.last() == s@[i as int]);
        let d = match digit(s[i], radix) {
            Some(d) => d,
            None => {
                assert(digit_of(body[k], radix as nat) is None);
                return None;
            },
        };
        assert(all_digits(next, radix as nat));
        let grown = match v.checked_mul(radix) {
            Some(m) => m.checked_add(d),
            None => None,
        };
        match grown {
            Some(g) if g <= max => {
                v = g;
            },
            _ => {
                proof {
                    assert(digits_value(next, radix as nat) > max);
                    if all_digits(body, radix as nat) {
                        assert(body.subrange(0, k + 1) =~= next);
                        lemma_digits_monotone(body, radix as nat, k + 1);
                    }
                }
                return None;
            },
        }
        i = i + 1;
    }
    assert(body.subrange(0, body.len() as int) =~= body);
    Some(v)
}

/// Parses a numeric option (see `option_number`).
fn parse_option_number(raw: &str, max: u64) -> (r: Option<u64>)
    ensures
        match r {
            Some(v) => option_number(raw@, max as nat) == Some(v as nat),
            None => option_number(raw@, max as nat) is None,
        },
{
    let s = chars_of(raw);
    if s.len() >= 2 && s[0] == '0' && (s[1] == 'x' || s[1] == 'X') {
        parse_unsigned(&s, 2, 16, max)
    } else {
        assert(s@.subrange(0, s@.len() as int) =~= s@);
        parse_unsigned(&s, 0, 10, max)
    }
}

/// The message for an option value that is not a valid `kind` number.
fn bad_number(option_name: &str, kind: &str, raw: &str) -> (e: String)
    ensures
        e@ == bad_number_message(option_name@, kind@, raw@),
{
    let mut e = String::new();
    e.append(option_name);
    e.append(" expects a valid ");
    e.append(kind);
    e.append(" value, got '");
    e.append(raw);
    e.append("'");
    e
}

/// Reads a 32-bit option value.
pub fn parse_u32_value(raw: &str, option_name: &str) -> (r: Result<u32, String>)
    ensures
        match r {
            Ok(v) => option_number(raw@, u32::MAX as nat) == Some(v as nat),
            Err(e) => option_number(raw@, u32::MAX as nat) is None && e@ == bad_number_message(
                option_name@,
                "u32"@,
                raw@,
            ),
        },
{
    match parse_option_number(raw, 0xFFFF_FFFF) {
        Some(v) => Ok(v as u32),
        None => Err(bad_number(option_name, "u32", raw)),
    }
}

/// Reads a 64-bit option value.
pub fn parse_u64_value(raw: &str, option_name: &str) -> (r: Result<u64, String>)
    ensures
        match r {
            Ok(v) => option_number(raw@, u64::MAX as nat) == Some(v as nat),
            Err(e) => option_number(raw@, u64::MAX as nat) is None && e@ == bad_number_message(
                option_name@,
                "u64"@,
                raw@,
            ),
        },
{
    match parse_option_number(raw, 0xFFFF_FFFF_FFFF_FFFF) {
        Some(v) => Ok(v),
        None => Err(bad_number(option_name, "u64", raw)),
    }
}

/// The run configuration given on the command line.
pub struct Args {
    pub input_file: String,
    pub output_file: String,
    pub log_dir: String,
    pub target_reg: String,
    pub verbose: bool,
    pub trace: bool,
    pub break_addr: Option<u32>,
    pub step_count: Option<u64>,
    pub print_regs: bool,
    pub mem_range: Option<(u32, u32)>,
    pub timer_interval: Option<u64>,
    pub headless: bool,
    pub disk_file: Option<String>,
    /// Where to save the display when the run ends (PNG or PPM by extension).
    pub screenshot: Option<String>,
}

/// What `Args` holds, with text as characters.
pub struct ArgsModel {
    pub input_file: Seq<char>,
    pub output_file: Seq<char>,
    pub log_dir: Seq<char>,
    pub target_reg: Seq<char>,
    pub verbose: bool,
    pub trace: bool,
    pub break_addr: Option<u32>,
    pub step_count: Option<u64>,
    pub print_regs: bool,
    pub mem_range: Option<(u32, u32)>,
    pub timer_interval: Option<u64>,
    pub headless: bool,
    pub disk_file: Option<Seq<char>>,
    pub screenshot: Option<Seq<char>>,
}

impl View for Args {
    type V = ArgsModel;

    open spec fn view(&self) -> ArgsModel {
        ArgsModel {
            input_file: self.input_file@,
            output_file: self.output_file@,
            log_dir: self.log_dir@,
            target_reg: self.target_reg@,
            verbose: self.verbose,
            trace: self.trace,
            break_addr: self.break_addr,
            step_count: self.step_count,
            print_regs: self.print_regs,
            mem_range: self.mem_range,
            timer_interval: self.timer_interval,
            headless: self.headless,
            disk_file: match self.disk_file {
                Some(d) => Some(d@),
                None => None,
            },
            screenshot: match self.screenshot {
                Some(p) => Some(p@),
                None => None,
            },
        }
    }
}

/// Nothing given yet: empty names, switches off, no values.
pub open spec fn no_options() -> ArgsModel {
    ArgsModel {
        input_file: Seq::empty(),
        output_file: Seq::empty(),
        log_dir: Seq::empty(),
        target_reg: Seq::empty(),
        verbose: false,
        trace: false,
        break_addr: None,
        step_count: None,
        print_regs: false,
        mem_range: None,
        timer_interval: None,
        headless: false,
        disk_file: None,
        screenshot: None,
    }
}

/// The text of each token.
pub open spec fn texts(tokens: Seq<String>) -> Seq<Seq<char>> {
    tokens.map_values(|t: String| t@)
}

/// The message when no input file was given.
pub open spec fn usage_message() -> Seq<char> {
    "Usage: myemulator -i <binary_file> [-o <output_file>]"@
}

/// The options after reading `tokens[i..]` on top of `acc`, or the message
/// for the first problem met. Each option may be given again; the last one
/// wins.
pub open spec fn options_from(tokens: Seq<Seq<char>>, i: int, acc: ArgsModel) -> Result<
    ArgsModel,
    Seq<char>,
>
    decreases tokens.len() - i,
{
    if i < 0 || i >= tokens.len() {
        Ok(acc)
    } else {
        let t = tokens[i];
        let has_next = i + 1 < tokens.len();
        let next = tokens[i + 1];
        if t == "-i"@ || t == "--in"@ {
            if !has_next {
                Err("-i/--in requires a filename argument"@)
            } else {
                options_from(tokens, i + 2, ArgsModel { input_file: next, ..acc })
            }
        } else if t == "-o"@ || t == "--out"@ {
            if !has_next {
                Err("-o/--out requires a filename argument"@)
            } else {
                options_from(tokens, i + 2, ArgsModel { output_file: next, ..acc })
            }
        } else if t == "--log-dir"@ {
            if !has_next {
                Err("--log-dir requires a directory argument"@)
            } else {
                options_from(tokens, i + 2, ArgsModel { log_dir: next, ..acc })
            }
        } else if t == "--reg"@ {
            if !has_next {
                Err("--reg requires a register name like R0..R7"@)
            } else {
                options_from(tokens, i + 2, ArgsModel { target_reg: next, ..acc })
            }
        } else if t == "-v"@ || t == "--verbose"@ {
            options_from(tokens, i + 1, ArgsModel { verbose: true, ..acc })
        } else if t == "--trace"@ {
            options_from(tokens, i + 1, ArgsModel { trace: true, ..acc })
        } else if t == "--break"@ {
            if !has_next {
                Err("--break requires an address like 0x40"@)
            } else {
                match option_number(next, u32::MAX as nat) {
                    Some(v) => options_from(
                        tokens,
                        i + 2,
                        ArgsModel { break_addr: Some(v as u32), ..acc },
                    ),
                    None => Err(bad_number_message("--break"@, "u32"@, next)),
                }
            }
        } else if t == "--step"@ {
            if !has_next {
                Err("--step requires a count like 10"@)
            } else {
                match option_number(next, u64::MAX as nat) {
                    Some(v) => options_from(
                        tokens,
                        i + 2,
                        ArgsModel { step_count: Some(v as u64), ..acc },
                    ),
                    None => Err(bad_number_message("--step"@, "u64"@, next)),
                }
            }
        } else if t == "--regs"@ {
            options_from(tokens, i + 1, ArgsModel { print_regs: true, ..acc })
        } else if t == "--timer-interval"@ {
            if !has_next {
                Err("--timer-interval requires a count like 1000"@)
            } else {
                match option_number(next, u64::MAX as nat) {
                    Some(v) => options_from(
                        tokens,
                        i + 2,
                        ArgsModel { timer_interval: Some(v as u64), ..acc },
                    ),
                    None => Err(bad_number_message("--timer-interval"@, "u64"@, next)),
                }
            }
        } else if t == "--mem"@ {
            if !has_next || i + 2 >= tokens.len() {
                Err("--mem requires <addr> <len>"@)
            } else {
                let len_raw = tokens[i + 2];
                match option_number(next, u32::MAX as nat) {
                    Some(start) => match option_number(len_raw, u32::MAX as nat) {
                        Some(len) => options_from(
                            tokens,
                            i + 3,
                            ArgsModel { mem_range: Some((start as u32, len as u32)), ..acc },
                        ),
                        None => Err(bad_number_message("--mem"@, "u32"@, len_raw)),
                    },
                    None => Err(bad_number_message("--mem"@, "u32"@, next)),
                }
            }
        } else if t == "--headless"@ {
            options_from(tokens, i + 1, ArgsModel { headless: true, ..acc })
        } else if t == "--disk"@ {
            if !has_next {
                Err("--disk requires a disk image path"@)
            } else {
                options_from(tokens, i + 2, ArgsModel { disk_file: Some(next), ..acc })
            }
        } else if t == "--screenshot"@ {
            if !has_next {
                Err("--screenshot requires an image path like shot.png"@)
            } else {
                options_from(tokens, i + 2, ArgsModel { screenshot: Some(next), ..acc })
            }
        } else {
            Err("Unknown option: "@ + t)
        }
    }
}

/// The configuration the tokens after the program name give, or the message
/// that refuses them; an input file is required.
pub open spec fn parsed_args(tokens: Seq<Seq<char>>) -> Result<ArgsModel, Seq<char>> {
    match options_from(tokens, 0, no_options()) {
        Ok(a) => if a.input_file.len() == 0 {
            Err(usage_message())
        } else {
            Ok(a)
        },
        Err(e) => Err(e),
    }
}

/// Reads the command line (the tokens after the program name).
pub fn parse_args(tokens: &Vec<String>) -> (r: Result<Args, String>)
    ensures
        match (r, parsed_args(texts(tokens@))) {
            (Ok(a), Ok(m)) => a@ == m,
            (Err(e), Err(m)) => e@ == m,
            _ => false,
        },
{
    let ghost t = texts(tokens@);
    let mut a = Args {
        input_file: String::new(),
        output_file: String::new(),
        log_dir: String::new(),
        target_reg: String::new(),
        verbose: false,
        trace: false,
        break_addr: None,
        step_count: None,
        print_regs: false,
        mem_range: None,
        timer_interval: None,
        headless: false,
        disk_file: None,
        screenshot: None,
    };
    assert(a@ == no_options());
    let n = tokens.len();
    let mut i: usize = 0;
    while i < n
        invariant
            i <= n,
            n == tokens@.len(),
            t == texts(tokens@),
            options_from(t, 0, no_options()) == options_from(t, i as int, a@),
        decreases n - i,
    {
        let arg = tokens[i].as_str();
        assert(t[i as int] == arg@);
        let has_next = i + 1 < n;
        if has_next {
            assert(t[i + 1] == tokens@[i + 1]@);
        }
        if same_text(arg, "-i") || same_text(arg, "--in") {
            if !has_next {
                return Err(String::from_str("-i/--in requires a filename argument"));
            }
            a.input_file = tokens[i + 1].clone();
            i = i + 2;
        } else if same_text(arg, "-o") || same_text(arg, "--out") {
            if !has_next {
                return Err(String::from_str("-o/--out requires a filename argument"));
            }
            a.output_file = tokens[i + 1].clone();
            i = i + 2;
        } else if same_text(arg, "--log-dir") {
            if !has_next {
                return Err(String::from_str("--log-dir requires a directory argument"));
            }
            a.log_dir = tokens[i + 1].clone();
            i = i + 2;
        } else if same_text(arg, "--reg") {
            if !has_next {
                return Err(String::from_str("--reg requires a register name like R0..R7"));
            }
            a.target_reg = tokens[i + 1].clone();
            i = i + 2;
        } else if same_text(arg, "-v") || same_text(arg, "--verbose") {
            a.verbose = true;
            i = i + 1;
        } else if same_text(arg, "--trace") {
            a.trace = true;
            i = i + 1;
        } else if same_text(arg, "--break") {
            if !has_next {
                return Err(String::from_str("--break requires an address like 0x40"));
            }
            match parse_u32_value(tokens[i + 1].as_str(), "--break") {
                Ok(v) => {
                    a.break_addr = Some(v);
                },
                Err(e) => {
                    return Err(e);
                },
            }
            i = i + 2;
        } else if same_text(arg, "--step") {
            if !has_next {
                return Err(String::from_str("--step requires a count like 10"));
            }
            match parse_u64_value(tokens[i + 1].as_str(), "--step") {
                Ok(v) => {
                    a.step_count = Some(v);
                },
                Err(e) => {
                    return Err(e);
                },
            }
            i = i + 2;
        } else if same_text(arg, "--regs") {
            a.print_regs = true;
            i = i + 1;
        } else if same_text(arg, "--timer-interval") {
            if !has_next {
                return Err(String::from_str("--timer-interval requires a count like 1000"));
            }
            match parse_u64_value(tokens[i + 1].as_str(), "--timer-interval") {
                Ok(v) => {
                    a.timer_interval = Some(v);
                },
                Err(e) => {
                    return Err(e);
                },
            }
            i = i + 2;
        } else if same_text(arg, "--mem") {
            if !has_next || i + 2 >= n {
                return Err(String::from_str("--mem requires <addr> <len>"));
            }
            assert(t[i + 2] == tokens@[i + 2]@);
            let start = match parse_u32_value(tokens[i + 1].as_str(), "--mem") {
                Ok(v) => v,
                Err(e) => {
                    return Err(e);
                },
            };
            let len = match parse_u32_value(tokens[i + 2].as_str(), "--mem") {
                Ok(v) => v,
                Err(e) => {
                    return Err(e);
                },
            };
            a.mem_range = Some((start, len));
            i = i + 3;
        } else if same_text(arg, "--headless") {
            a.headless = true;
            i = i + 1;
        } else if same_text(arg, "--disk") {
            if !has_next {
                return Err(String::from_str("--disk requires a disk image path"));
            }
            a.disk_file = Some(tokens[i + 1].clone());
            i = i + 2;
        } else if same_text(arg, "--screenshot") {
            if !has_next {
                return Err(String::from_str("--screenshot requires an image path like shot.png"));
            }
            a.screenshot = Some(tokens[i + 1].clone());
            i = i + 2;
        } else {
            let mut e = String::from_str("Unknown option: ");
            e.append(arg);
            return Err(e);
        }
    }
    if a.input_file.as_str().is_empty() {
        return Err(String::from_str("Usage: myemulator -i <binary_file> [-o <output_file>]"));
    }
    Ok(a)
}

} // verus!

//! The delimiter-pairing validator: a linear scan over source text that
//! pushes opening tokens on a stack and pops them against closing tokens,
//! reporting the first mismatch with 1-based line/column diagnostics.
//!
//! Quote characters (`'` and `"`) pair with the next quote of the same
//! character: a quote closes the pending quote of the same character on top
//! of the stack, and opens a new pending quote otherwise. Angle brackets
//! are classified but not paired. Leading and trailing ASCII whitespace is
//! trimmed before the scan, so all reported positions are relative to the
//! trimmed text.

use vstd::prelude::*;
use vstd::string::*;
use crate::render::{dec_str, usize_to_string};
use crate::stack::Stack;

verus! {

///
#[derive(Debug, PartialEq, Eq, Structural)]
pub enum TokenType {
    Braces(char),
    ReverseBraces(char),
    Brackets(char),
    ReverseBrackets(char),
    Parentheses(char),
    ReverseParentheses(char),
    Quotes(char),
    DoubleQuotes(char),
    Arrows(char),
    ReverseArrows(char),
    Charater(char),
    Space(char),
    Period(char),
    Comma(char),
    Unknown(char),
}

#[derive(Debug, PartialEq, Eq, Structural)]
enum NeedToPairingResult {
    Yes(TokenType),
    No,
}

///
#[derive(Debug, PartialEq, Clone, Copy)]
struct PairToken {
    token: char,
    line_number: usize,
    column_number: usize,
}

///
#[derive(Debug, PartialEq)]
pub enum CodeTokenValidateResult {
    Passed,
    Fail(usize, usize, String),
}

/// A pending opener of the abstract scan: its character and position.
pub struct PendingToken {
    pub token: char,
    pub line: int,
    pub col: int,
}

/// The abstract outcome of a scan: passed, or failed at a 1-based line and
/// column with a message.
pub enum SpecValidateResult {
    Passed,
    Fail(int, int, Seq<char>),
}

/// An opening bracket token.
pub open spec fn is_open_token(c: char) -> bool {
    c == '{' || c == '[' || c == '('
}

/// A closing bracket token.
pub open spec fn is_close_token(c: char) -> bool {
    c == '}' || c == ']' || c == ')'
}

/// A quote token, which both opens and closes.
pub open spec fn is_quote_token(c: char) -> bool {
    c == '\'' || c == '"'
}

/// The opener a closing bracket expects.
pub open spec fn opener_of(c: char) -> char {
    if c == ')' {
        '('
    } else if c == ']' {
        '['
    } else if c == '}' {
        '{'
    } else {
        ' '
    }
}

/// The closer an unclosed token is missing at the end of the input.
pub open spec fn closer_of(c: char) -> char {
    if c == '(' {
        ')'
    } else if c == '[' {
        ']'
    } else if c == '{' {
        '}'
    } else if c == '"' {
        '"'
    } else if c == '\'' {
        '\''
    } else {
        ' '
    }
}

/// ASCII whitespace, as the validator trims it.
pub open spec fn is_ws(c: char) -> bool {
    c == ' ' || c == '\t' || c == '\n' || c == '\r'
}

/// `s` without its leading whitespace.
pub open spec fn trim_front(s: Seq<char>) -> Seq<char>
    decreases s.len(),
{
    if s.len() > 0 && is_ws(s[0]) {
        trim_front(s.drop_first())
    } else {
        s
    }
}

/// `s` without its trailing whitespace.
pub open spec fn trim_back(s: Seq<char>) -> Seq<char>
    decreases s.len(),
{
    if s.len() > 0 && is_ws(s.last()) {
        trim_back(s.drop_last())
    } else {
        s
    }
}

/// `s` without leading and trailing whitespace.
pub open spec fn trimmed(s: Seq<char>) -> Seq<char> {
    trim_back(trim_front(s))
}

/// The failure message
/// `"Missing the pairing token '<missing>' of '<found>' at <line>:<col>"`.
pub open spec fn fail_message(missing: char, found: char, line: nat, col: nat) -> Seq<char> {
    "Missing the pairing token '"@ + seq![missing] + "' of '"@ + seq![found] + "' at "@
        + dec_str(line) + ":"@ + dec_str(col)
}

/// The scan from position `i` of `text` at the given 1-based line and
/// column, with the pending openers `pending` (bottom first):
/// - an opening bracket is pushed with its position;
/// - a closing bracket fails at the current position if nothing is pending,
///   naming the opener it expects; it pops the most recent pending token
///   and fails at the current position, naming that popped token, if the
///   token is not the expected opener;
/// - a quote pops the pending quote of the same character on top, and is
///   pushed otherwise;
/// - every other character only advances the position;
/// - at the end of the text, the most recent pending token — the deepest
///   unclosed opener — fails at its own position, naming its closer.
pub open spec fn scan(
    text: Seq<char>,
    i: nat,
    line: nat,
    col: nat,
    pending: Seq<PendingToken>,
) -> SpecValidateResult
    decreases text.len() - i,
{
    if i >= text.len() {
        if pending.len() == 0 {
            SpecValidateResult::Passed
        } else {
            let top = pending.last();
            SpecValidateResult::Fail(
                top.line,
                top.col,
                fail_message(closer_of(top.token), top.token, top.line as nat, top.col as nat),
            )
        }
    } else {
        let c = text[i as int];
        if c == '\n' {
            scan(text, i + 1, line + 1, 1, pending)
        } else if is_open_token(c) {
            scan(
                text,
                i + 1,
                line,
                col + 1,
                pending.push(PendingToken { token: c, line: line as int, col: col as int }),
            )
        } else if is_close_token(c) {
            if pending.len() == 0 {
                SpecValidateResult::Fail(
                    line as int,
                    col as int,
                    fail_message(opener_of(c), c, line, col),
                )
            } else if pending.last().token != opener_of(c) {
                SpecValidateResult::Fail(
                    line as int,
                    col as int,
                    fail_message(pending.last().token, c, line, col),
                )
            } else {
                scan(text, i + 1, line, col + 1, pending.drop_last())
            }
        } else if is_quote_token(c) {
            if pending.len() > 0 && pending.last().token == c {
                scan(text, i + 1, line, col + 1, pending.drop_last())
            } else {
                scan(
                    text,
                    i + 1,
                    line,
                    col + 1,
                    pending.push(PendingToken { token: c, line: line as int, col: col as int }),
                )
            }
        } else {
            scan(text, i + 1, line, col + 1, pending)
        }
    }
}

/// The whole validation: trim, then scan from the start at line 1, column 1
/// with nothing pending.
pub open spec fn spec_validate(text: Seq<char>) -> SpecValidateResult {
    scan(trimmed(text), 0, 1, 1, Seq::empty())
}

/// How an executable result corresponds to an abstract one.
pub open spec fn result_matches(r: CodeTokenValidateResult, s: SpecValidateResult) -> bool {
    match (r, s) {
        (CodeTokenValidateResult::Passed, SpecValidateResult::Passed) => true,
        (CodeTokenValidateResult::Fail(l, c, m), SpecValidateResult::Fail(ls, cs, ms)) => l as int
            == ls && c as int == cs && m@ == ms,
        _ => false,
    }
}

/// A character that can stand in a failure message: a bracket, a quote, or
/// the space placeholder.
pub open spec fn is_message_char(c: char) -> bool {
    ||| is_open_token(c)
    ||| is_close_token(c)
    ||| is_quote_token(c)
    ||| c == ' '
}

/// The characters of `s`, in order.
fn chars_of_str(s: &str) -> (r: Vec<char>)
    ensures
        r@ == s@,
{
    let n = s.unicode_len();
    let mut r: Vec<char> = Vec::new();
    let mut i: usize = 0;
    while i < n
        invariant
            n == s@.len(),
            i <= n,
            r@ == s@.subrange(0, i as int),
        decreases n - i,
    {
        r.push(s.get_char(i));
        i = i + 1;
        proof {
            assert(r@ =~= s@.subrange(0, i as int));
        }
    }
    proof {
        assert(s@.subrange(0, n as int) =~= s@);
    }
    r
}

/// Whether the validator trims `c` at the edges of the input.
fn is_whitespace_char(c: char) -> (r: bool)
    ensures
        r == is_ws(c),
{
    c == ' ' || c == '\t' || c == '\n' || c == '\r'
}

/// `chars` without leading and trailing whitespace, matching `trimmed`.
fn trim_chars(chars: &Vec<char>) -> (r: Vec<char>)
    ensures
        r@ == trimmed(chars@),
        r@.len() <= chars@.len(),
{
    let n = chars.len();
    proof {
        assert(chars@.subrange(0, n as int) =~= chars@);
    }
    let mut start: usize = 0;
    while start < n && is_whitespace_char(chars[start])
        invariant
            n == chars@.len(),
            start <= n,
            trim_front(chars@) == trim_front(chars@.subrange(start as int, n as int)),
        decreases n - start,
    {
        proof {
            let rest = chars@.subrange(start as int, n as int);
            assert(rest.drop_first() =~= chars@.subrange(start as int + 1, n as int));
        }
        start = start + 1;
    }

    if start == n {
        // the input is all whitespace
        proof {
            assert(chars@.subrange(start as int, n as int) =~= Seq::<char>::empty());
            assert(trimmed(chars@) =~= Seq::<char>::empty());
        }
        return Vec::new();
    }

    proof {
        assert(trim_front(chars@) == chars@.subrange(start as int, n as int));
    }

    let mut end: usize = n;
    while end > start && is_whitespace_char(chars[end - 1])
        invariant
            n == chars@.len(),
            start < n,
            start <= end <= n,
            !is_ws(chars@[start as int]),
            trim_back(chars@.subrange(start as int, n as int)) == trim_back(
                chars@.subrange(start as int, end as int),
            ),
        decreases end,
    {
        proof {
            let part = chars@.subrange(start as int, end as int);
            assert(part.last() == chars@[end - 1]);
            assert(part.drop_last() =~= chars@.subrange(start as int, end as int - 1));
        }
        end = end - 1;
    }

    proof {
        let part = chars@.subrange(start as int, end as int);
        if end > start {
            assert(part.last() == chars@[end - 1]);
        } else {
            assert(end == start);
        }
        assert(trim_back(part) == part);
    }

    let mut out: Vec<char> = Vec::new();
    let mut i: usize = start;
    while i < end
        invariant
            n == chars@.len(),
            start <= i <= end <= n,
            out@ == chars@.subrange(start as int, i as int),
        decreases end - i,
    {
        out.push(chars[i]);
        i = i + 1;
        proof {
            assert(out@ =~= chars@.subrange(start as int, i as int));
        }
    }
    out
}

/// A one-character string slice for a message character.
fn token_str(c: char) -> (r: &'static str)
    requires
        is_message_char(c),
    ensures
        r@ == seq![c],
{
    proof {
        reveal_strlit("(");
        reveal_strlit(")");
        reveal_strlit("[");
        reveal_strlit("]");
        reveal_strlit("{");
        reveal_strlit("}");
        reveal_strlit("'");
        reveal_strlit("\"");
        reveal_strlit(" ");
    }
    let r: &'static str = if c == '(' {
        "("
    } else if c == ')' {
        ")"
    } else if c == '[' {
        "["
    } else if c == ']' {
        "]"
    } else if c == '{' {
        "{"
    } else if c == '}' {
        "}"
    } else if c == '\'' {
        "'"
    } else if c == '"' {
        "\""
    } else {
        " "
    };
    proof {
        assert(r@ =~= seq![c]);
    }
    r
}

/// The token classification of one character.
pub open spec fn token_of(c: char) -> TokenType {
    if c == '{' {
        TokenType::Braces(c)
    } else if c == '}' {
        TokenType::ReverseBraces(c)
    } else if c == '[' {
        TokenType::Brackets(c)
    } else if c == ']' {
        TokenType::ReverseBrackets(c)
    } else if c == '(' {
        TokenType::Parentheses(c)
    } else if c == ')' {
        TokenType::ReverseParentheses(c)
    } else if c == '<' {
        TokenType::Arrows(c)
    } else if c == '>' {
        TokenType::ReverseArrows(c)
    } else if c == '\'' {
        TokenType::Quotes(c)
    } else if c == '"' {
        TokenType::DoubleQuotes(c)
    } else if c == ' ' {
        TokenType::Space(c)
    } else if c == '.' {
        TokenType::Period(c)
    } else if c == ',' {
        TokenType::Comma(c)
    } else if (97 <= c as int && c as int <= 122) || (65 <= c as int && c as int <= 90) {
        TokenType::Charater(c)
    } else {
        TokenType::Unknown(c)
    }
}

/// Whether a token takes part in pairing at all (brackets, parentheses,
/// braces, angle brackets and quotes do; everything else is skipped).
pub open spec fn needs_pairing(t: TokenType) -> bool {
    match t {
        TokenType::Braces(_) => true,
        TokenType::ReverseBraces(_) => true,
        TokenType::Brackets(_) => true,
        TokenType::ReverseBrackets(_) => true,
        TokenType::Parentheses(_) => true,
        TokenType::ReverseParentheses(_) => true,
        TokenType::Arrows(_) => true,
        TokenType::ReverseArrows(_) => true,
        TokenType::Quotes(_) => true,
        TokenType::DoubleQuotes(_) => true,
        _ => false,
    }
}

/// Builds the failure message, matching `fail_message`.
fn build_fail_message(missing: char, found: char, line: usize, col: usize) -> (r: String)
    requires
        is_message_char(missing),
        is_message_char(found),
    ensures
        r@ == fail_message(missing, found, line as nat, col as nat),
{
    let mut s = "Missing the pairing token '".to_owned();
    s.append(token_str(missing));
    s.append("' of '");
    s.append(token_str(found));
    s.append("' at ");
    s.append(usize_to_string(line).as_str());
    s.append(":");
    s.append(usize_to_string(col).as_str());
    s
}

/// The pending tokens a stack of `PairToken` stands for, bottom first.
spec fn pending_view(s: Seq<PairToken>) -> Seq<PendingToken> {
    s.map_values(
        |p: PairToken|
            PendingToken { token: p.token, line: p.line_number as int, col: p.column_number as int },
    )
}

/// What the reverse (closing) check leaves behind: the pending tokens `q`
/// and the result `r`, given the pending tokens `p`, the closing token `c`
/// and its position.
spec fn reverse_check_post(
    p: Seq<PendingToken>,
    c: char,
    line: nat,
    col: nat,
    q: Seq<PendingToken>,
    r: CodeTokenValidateResult,
) -> bool {
    if p.len() == 0 {
        &&& q == p
        &&& result_matches(
            r,
            SpecValidateResult::Fail(
                line as int,
                col as int,
                fail_message(opener_of(c), c, line, col),
            ),
        )
    } else if p.last().token != opener_of(c) {
        &&& q == p.drop_last()
        &&& result_matches(
            r,
            SpecValidateResult::Fail(
                line as int,
                col as int,
                fail_message(p.last().token, c, line, col),
            ),
        )
    } else {
        &&& q == p.drop_last()
        &&& r == CodeTokenValidateResult::Passed
    }
}

/// Use `Stack` to validate all paired tokens in any source code.
#[derive(Debug)]
pub struct CodeTokenPairingValidator {
    token_stack: Stack<PairToken>,
}

///
impl CodeTokenPairingValidator {
    /// Well-formedness: the stack is well-formed and only ever holds
    /// opening tokens and quotes.
    pub closed spec fn wf(&self) -> bool {
        &&& self.token_stack.wf()
        &&& forall|i: int|
            0 <= i < self.token_stack@.len() ==> is_open_token(
                (#[trigger] self.token_stack@[i]).token,
            ) || is_quote_token(self.token_stack@[i].token)
    }

    ///
    pub fn new() -> (r: Self)
        ensures
            r.wf(),
    {
        CodeTokenPairingValidator { token_stack: Stack::<PairToken>::new() }
    }

    ///
    fn get_token_by_char(char_to_check: char) -> (r: TokenType)
        ensures
            r == token_of(char_to_check),
    {
        if char_to_check == '{' {
            TokenType::Braces(char_to_check)
        } else if char_to_check == '}' {
            TokenType::ReverseBraces(char_to_check)
        } else if char_to_check == '[' {
            TokenType::Brackets(char_to_check)
        } else if char_to_check == ']' {
            TokenType::ReverseBrackets(char_to_check)
        } else if char_to_check == '(' {
            TokenType::Parentheses(char_to_check)
        } else if char_to_check == ')' {
            TokenType::ReverseParentheses(char_to_check)
        } else if char_to_check == '<' {
            TokenType::Arrows(char_to_check)
        } else if char_to_check == '>' {
            TokenType::ReverseArrows(char_to_check)
        } else if char_to_check == '\'' {
            TokenType::Quotes(char_to_check)
        } else if char_to_check == '"' {
            TokenType::DoubleQuotes(char_to_check)
        } else if char_to_check == ' ' {
            TokenType::Space(char_to_check)
        } else if char_to_check == '.' {
            TokenType::Period(char_to_check)
        } else if char_to_check == ',' {
            TokenType::Comma(char_to_check)
        } else {
            let u = char_to_check as u32;
            if (97 <= u && u <= 122) || (65 <= u && u <= 90) {
                TokenType::Charater(char_to_check)
            } else {
                TokenType::Unknown(char_to_check)
            }
        }
    }

    ///
    fn need_to_pairing(token: TokenType) -> (r: NeedToPairingResult)
        ensures
            r == if needs_pairing(token) {
                NeedToPairingResult::Yes(token)
            } else {
                NeedToPairingResult::No
            },
    {
        match token {
            TokenType::Braces(_) => NeedToPairingResult::Yes(token),
            TokenType::ReverseBraces(_) => NeedToPairingResult::Yes(token),
            TokenType::Brackets(_) => NeedToPairingResult::Yes(token),
            TokenType::ReverseBrackets(_) => NeedToPairingResult::Yes(token),
            TokenType::Parentheses(_) => NeedToPairingResult::Yes(token),
            TokenType::ReverseParentheses(_) => NeedToPairingResult::Yes(token),
            TokenType::Arrows(_) => NeedToPairingResult::Yes(token),
            TokenType::ReverseArrows(_) => NeedToPairingResult::Yes(token),
            TokenType::Quotes(_) => NeedToPairingResult::Yes(token),
            TokenType::DoubleQuotes(_) => NeedToPairingResult::Yes(token),
            _ => NeedToPairingResult::No,
        }
    }

    /// This function should only be called for dealing with the closing
    /// pairing case, that is for `)`, `]` and `}`.
    ///
    /// On an empty stack it fails naming the expected opener; otherwise it
    /// pops the most recent pending token, and fails naming that token when
    /// it is not the expected opener. The failure cites the closer's own
    /// position.
    fn reverse_pairing_token_check(
        &mut self,
        token_type: TokenType,
        line_num: usize,
        col_num: usize,
    ) -> (r: CodeTokenValidateResult)
        requires
            old(self).wf(),
            exists|c: char| is_close_token(c) && token_type == token_of(c),
        ensures
            final(self).wf(),
            forall|c: char|
                is_close_token(c) && token_type == token_of(c) ==> reverse_check_post(
                    pending_view(old(self).token_stack@),
                    c,
                    line_num as nat,
                    col_num as nat,
                    pending_view(final(self).token_stack@),
                    r,
                ),
    {
        let ghost c0 = choose|c: char| is_close_token(c) && token_type == token_of(c);
        let mut failed = false;
        let current_checking_token: char;
        let mut missing_checking_token: char = ' ';
        match token_type {
            TokenType::ReverseBraces(current_token)
            | TokenType::ReverseBrackets(current_token)
            | TokenType::ReverseParentheses(current_token) => {
                proof {
                    assert(current_token == c0);
                }
                current_checking_token = current_token;

                if self.token_stack.is_empty() {
                    failed = true;
                    // Name the opener this closer expects.
                    if current_token == ')' {
                        missing_checking_token = '(';
                    } else if current_token == ']' {
                        missing_checking_token = '[';
                    } else {
                        missing_checking_token = '{';
                    }
                } else {
                    match self.token_stack.pop() {
                        Some(pop_token) => {
                            // Name the popped opener that was left unpaired.
                            if current_token == ')' && pop_token.token != '(' {
                                failed = true;
                                missing_checking_token = pop_token.token;
                            } else if current_token == ']' && pop_token.token != '[' {
                                failed = true;
                                missing_checking_token = pop_token.token;
                            } else if current_token == '}' && pop_token.token != '{' {
                                failed = true;
                                missing_checking_token = pop_token.token;
                            }
                            proof {
                                assert(pending_view(old(self).token_stack@).last()
                                    == pending_view(old(self).token_stack@)[old(
                                    self,
                                ).token_stack@.len() - 1]);
                                assert(pending_view(self.token_stack@) =~= pending_view(
                                    old(self).token_stack@,
                                ).drop_last());
                            }
                        }
                        None => {
                            proof {
                                assert(false);
                            }
                        }
                    }
                }
            }
            _ => {
                proof {
                    assert(false);
                }
                current_checking_token = ' ';
            }
        }

        if failed {
            CodeTokenValidateResult::Fail(
                line_num,
                col_num,
                build_fail_message(
                    missing_checking_token,
                    current_checking_token,
                    line_num,
                    col_num,
                ),
            )
        } else {
            CodeTokenValidateResult::Passed
        }
    }

    /// Whether all tokens in the source code are paired; the detailed error
    /// comes back when the check fails.
    ///
    /// The pending stack is reset at the start of each call, so one
    /// validator can check many inputs in turn. The result is exactly the
    /// abstract scan `spec_validate` of the input.
    pub fn token_pairing_check(&mut self, source_code: &str) -> (r: CodeTokenValidateResult)
        requires
            old(self).wf(),
            source_code@.len() < usize::MAX,
        ensures
            final(self).wf(),
            result_matches(r, spec_validate(source_code@)),
    {
        let chars = chars_of_str(source_code);
        let source_code_to_check = trim_chars(&chars);
        let ghost t = source_code_to_check@;

        if source_code_to_check.len() == 0 {
            proof {
                assert(spec_validate(source_code@) == SpecValidateResult::Passed);
            }
            return CodeTokenValidateResult::Passed;
        }

        // Each validation starts with a fresh pending stack.
        self.token_stack = Stack::new();
        proof {
            assert(pending_view(self.token_stack@) =~= Seq::<PendingToken>::empty());
        }

        // Walk through the characters, counting 1-based lines and columns.
        let mut line_number: usize = 1;
        let mut column_number: usize = 1;
        let mut i: usize = 0;

        while i < source_code_to_check.len()
            invariant
                self.wf(),
                t == source_code_to_check@,
                t == trimmed(source_code@),
                t.len() < usize::MAX,
                i <= t.len(),
                1 <= line_number as int,
                line_number as int <= i + 1,
                1 <= column_number as int,
                column_number as int <= i + 1,
                self.token_stack@.len() <= i,
                scan(
                    t,
                    i as nat,
                    line_number as nat,
                    column_number as nat,
                    pending_view(self.token_stack@),
                ) == spec_validate(source_code@),
            decreases t.len() - i,
        {
            let ghost old_i = i as nat;
            let ghost old_line = line_number as nat;
            let ghost old_col = column_number as nat;
            let ghost prev_stack = self.token_stack@;
            let ghost pv = pending_view(prev_stack);

            let temp_char = source_code_to_check[i];
            let token_type = Self::get_token_by_char(temp_char);
            let need_to_pairing_result = Self::need_to_pairing(token_type);

            match need_to_pairing_result {
                // Continue with the next character if no pairing is needed.
                NeedToPairingResult::No => {}
                NeedToPairingResult::Yes(st) => {
                    match st {
                        TokenType::Braces(c) | TokenType::Brackets(c) | TokenType::Parentheses(
                            c,
                        ) => {
                            self.token_stack.push(
                                PairToken { token: c, line_number, column_number },
                            );
                            proof {
                                assert(pending_view(self.token_stack@) =~= pv.push(
                                    PendingToken {
                                        token: c,
                                        line: line_number as int,
                                        col: column_number as int,
                                    },
                                ));
                            }
                        }

                        TokenType::ReverseBraces(_) | TokenType::ReverseBrackets(_)
                        | TokenType::ReverseParentheses(_) => {
                            proof {
                                assert(is_close_token(temp_char) && st == token_of(temp_char));
                                if pv.len() > 0 {
                                    assert(pv.last() == pv[prev_stack.len() - 1]);
                                }
                            }
                            let temp_result = self.reverse_pairing_token_check(
                                st,
                                line_number,
                                column_number,
                            );
                            proof {
                                assert(reverse_check_post(
                                    pv,
                                    temp_char,
                                    old_line,
                                    old_col,
                                    pending_view(self.token_stack@),
                                    temp_result,
                                ));
                            }
                            if !(matches!(temp_result, CodeTokenValidateResult::Passed)) {
                                return temp_result;
                            }
                        }

                        TokenType::Quotes(c) | TokenType::DoubleQuotes(c) => {
                            // A quote closes the pending quote of the same
                            // character on top of the stack, and opens a
                            // new pending quote otherwise.
                            proof {
                                if pv.len() > 0 {
                                    assert(pv.last() == pv[prev_stack.len() - 1]);
                                }
                            }
                            match self.token_stack.pop() {
                                Some(pop_token) => {
                                    if pop_token.token == c {
                                        // The pending quote is closed.
                                        proof {
                                            assert(pending_view(self.token_stack@)
                                                =~= pv.drop_last());
                                        }
                                    } else {
                                        self.token_stack.push(pop_token);
                                        proof {
                                            assert(self.token_stack@ =~= prev_stack);
                                        }
                                        self.token_stack.push(
                                            PairToken { token: c, line_number, column_number },
                                        );
                                        proof {
                                            assert(pending_view(self.token_stack@) =~= pv.push(
                                                PendingToken {
                                                    token: c,
                                                    line: line_number as int,
                                                    col: column_number as int,
                                                },
                                            ));
                                        }
                                    }
                                }
                                None => {
                                    self.token_stack.push(
                                        PairToken { token: c, line_number, column_number },
                                    );
                                    proof {
                                        assert(pending_view(self.token_stack@) =~= pv.push(
                                            PendingToken {
                                                token: c,
                                                line: line_number as int,
                                                col: column_number as int,
                                            },
                                        ));
                                    }
                                }
                            }
                        }
                        _ => {}
                    }
                }
            }

            if temp_char == '\n' {
                line_number = line_number + 1;
                column_number = 1;
            } else {
                column_number = column_number + 1;
            }
            i = i + 1;

            proof {
                assert(scan(t, old_i, old_line, old_col, pv) == scan(
                    t,
                    i as nat,
                    line_number as nat,
                    column_number as nat,
                    pending_view(self.token_stack@),
                ));
            }
        }

        // If the pending stack is not empty, the most recent pending token
        // is the deepest unclosed opener: it is missing its pairing token.
        if !self.token_stack.is_empty() {
            let ghost pv = pending_view(self.token_stack@);
            proof {
                assert(pv.last() == pv[self.token_stack@.len() - 1]);
            }
            match self.token_stack.pop() {
                Some(pop_token) => {
                    let missing_checking_token: char;

                    if pop_token.token == '(' {
                        missing_checking_token = ')';
                    } else if pop_token.token == '[' {
                        missing_checking_token = ']';
                    } else if pop_token.token == '{' {
                        missing_checking_token = '}';
                    } else if pop_token.token == '"' {
                        missing_checking_token = '"';
                    } else {
                        missing_checking_token = '\'';
                    }

                    CodeTokenValidateResult::Fail(
                        pop_token.line_number,
                        pop_token.column_number,
                        build_fail_message(
                            missing_checking_token,
                            pop_token.token,
                            pop_token.line_number,
                            pop_token.column_number,
                        ),
                    )
                }
                None => {
                    proof {
                        assert(false);
                    }
                    CodeTokenValidateResult::Passed
                }
            }
        } else {
            CodeTokenValidateResult::Passed
        }
    }
}

} // verus!


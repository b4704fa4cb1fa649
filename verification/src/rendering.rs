//! The rendering of a tree and the tokens of that rendering agree: white
//! space apart, the rendering is the texts of the tokens, one after the
//! other.
use crate::ast::expression::{render_expression, render_list, ExpressionView};
use crate::ast::statement::{render_sequence, render_statement, StatementView};
use crate::round_trip::{
    spell_expression, spell_list, spell_more, spell_sequence, spell_statement, token,
};
use crate::token::{TokenKind, TokenView};
use vstd::prelude::*;

verus! {

/// The characters that the rendering puts between tokens.
pub open spec fn is_blank(c: char) -> bool {
    c == ' ' || c == '\n'
}

/// The test for a character that is no blank, as a predicate.
pub open spec fn solid() -> spec_fn(char) -> bool {
    |c: char| !is_blank(c)
}

/// The text without its blanks.
pub open spec fn ink(s: Seq<char>) -> Seq<char> {
    s.filter(solid())
}

/// The texts of the tokens, one after the other.
pub open spec fn texts(tokens: Seq<TokenView>) -> Seq<char>
    decreases tokens.len(),
{
    if tokens.len() == 0 {
        Seq::empty()
    } else {
        texts(tokens.drop_last()) + tokens.last().text
    }
}

/// The ink of two texts, one after the other, is the ink of the first
/// followed by the ink of the second.
proof fn lemma_ink_add(a: Seq<char>, b: Seq<char>)
    ensures
        ink(a + b) == ink(a) + ink(b),
{
    Seq::filter_distributes_over_add(a, b, solid());
}

/// Blanks leave no ink.
proof fn lemma_ink_blanks()
    ensures
        ink(" "@) == Seq::<char>::empty(),
        ink("\n"@) == Seq::<char>::empty(),
        ink(Seq::<char>::empty()) == Seq::<char>::empty(),
{
    reveal_strlit(" ");
    reveal_strlit("\n");
    reveal_with_fuel(Seq::filter, 3);
    assert(" "@.drop_last() =~= Seq::<char>::empty());
    assert("\n"@.drop_last() =~= Seq::<char>::empty());
    assert(!solid()(' '));
    assert(!solid()('\n'));
}

/// The texts of two runs of tokens, one after the other, are the texts of
/// the first followed by the texts of the second.
proof fn lemma_texts_add(a: Seq<TokenView>, b: Seq<TokenView>)
    ensures
        texts(a + b) == texts(a) + texts(b),
    decreases b.len(),
{
    if b.len() == 0 {
        assert(a + b =~= a);
        assert(texts(a) + texts(b) =~= texts(a));
    } else {
        lemma_texts_add(a, b.drop_last());
        assert((a + b).drop_last() =~= a + b.drop_last());
        assert(texts(a) + (texts(b.drop_last()) + b.last().text) =~= (texts(a) + texts(
            b.drop_last(),
        )) + b.last().text);
    }
}

/// The texts of a single token are its text.
proof fn lemma_texts_one(t: TokenView)
    ensures
        texts(seq![t]) == t.text,
{
    assert(seq![t].drop_last() =~= Seq::<TokenView>::empty());
    assert(texts(seq![t].drop_last()) + t.text =~= t.text);
}

/// The ink of the tokens `a` followed by the tokens `b` is the ink of `a`
/// followed by the ink of `b`.
proof fn lemma_inked_add(a: Seq<TokenView>, b: Seq<TokenView>)
    ensures
        ink(texts(a + b)) == ink(texts(a)) + ink(texts(b)),
{
    lemma_texts_add(a, b);
    lemma_ink_add(texts(a), texts(b));
}

/// The fixed words of the rendering, split into their tokens and blanks.
proof fn lemma_words()
    ensures
        ink("fn ("@) == ink("fn"@) + ink("("@),
        ink("if ("@) == ink("if"@) + ink("("@),
        ink(") "@) == ink(")"@),
        ink(" else "@) == ink("else"@),
        ink(", "@) == ink(","@),
        ink("let "@) == ink("let"@),
        ink(" = "@) == ink("="@),
        ink("return "@) == ink("return"@),
        ink("{\n"@) == ink("{"@),
        ink("\n}"@) == ink("}"@),
{
    lemma_ink_blanks();
    reveal_strlit(" ");
    reveal_strlit("\n");
    assert("fn ("@ =~= "fn"@ + " "@ + "("@) by {
        reveal_strlit("fn (");
        reveal_strlit("fn");
        reveal_strlit("(");
    }
    lemma_ink_add("fn"@ + " "@, "("@);
    lemma_ink_add("fn"@, " "@);
    assert(ink("fn"@) + Seq::<char>::empty() =~= ink("fn"@));
    assert("if ("@ =~= "if"@ + " "@ + "("@) by {
        reveal_strlit("if (");
        reveal_strlit("if");
        reveal_strlit("(");
    }
    lemma_ink_add("if"@ + " "@, "("@);
    lemma_ink_add("if"@, " "@);
    assert(ink("if"@) + Seq::<char>::empty() =~= ink("if"@));
    assert(") "@ =~= ")"@ + " "@) by {
        reveal_strlit(") ");
        reveal_strlit(")");
    }
    lemma_ink_add(")"@, " "@);
    assert(ink(")"@) + Seq::<char>::empty() =~= ink(")"@));
    assert(" else "@ =~= " "@ + "else"@ + " "@) by {
        reveal_strlit(" else ");
        reveal_strlit("else");
    }
    lemma_ink_add(" "@ + "else"@, " "@);
    lemma_ink_add(" "@, "else"@);
    assert(Seq::<char>::empty() + ink("else"@) + Seq::<char>::empty() =~= ink("else"@));
    assert(", "@ =~= ","@ + " "@) by {
        reveal_strlit(", ");
        reveal_strlit(",");
    }
    lemma_ink_add(","@, " "@);
    assert(ink(","@) + Seq::<char>::empty() =~= ink(","@));
    assert("let "@ =~= "let"@ + " "@) by {
        reveal_strlit("let ");
        reveal_strlit("let");
    }
    lemma_ink_add("let"@, " "@);
    assert(ink("let"@) + Seq::<char>::empty() =~= ink("let"@));
    assert(" = "@ =~= " "@ + "="@ + " "@) by {
        reveal_strlit(" = ");
        reveal_strlit("=");
    }
    lemma_ink_add(" "@ + "="@, " "@);
    lemma_ink_add(" "@, "="@);
    assert(Seq::<char>::empty() + ink("="@) + Seq::<char>::empty() =~= ink("="@));
    assert("return "@ =~= "return"@ + " "@) by {
        reveal_strlit("return ");
        reveal_strlit("return");
    }
    lemma_ink_add("return"@, " "@);
    assert(ink("return"@) + Seq::<char>::empty() =~= ink("return"@));
    assert("{\n"@ =~= "{"@ + "\n"@) by {
        reveal_strlit("{\n");
        reveal_strlit("{");
    }
    lemma_ink_add("{"@, "\n"@);
    assert(ink("{"@) + Seq::<char>::empty() =~= ink("{"@));
    assert("\n}"@ =~= "\n"@ + "}"@) by {
        reveal_strlit("\n}");
        reveal_strlit("}");
    }
    lemma_ink_add("\n"@, "}"@);
    assert(Seq::<char>::empty() + ink("}"@) =~= ink("}"@));
}

/// The ink of the texts of the tokens.
pub open spec fn inked(tokens: Seq<TokenView>) -> Seq<char> {
    ink(texts(tokens))
}

/// The ink of a single token is the ink of its text.
proof fn lemma_inked_one(t: TokenView)
    ensures
        inked(seq![t]) == ink(t.text),
{
    lemma_texts_one(t);
}

/// No tokens leave no ink.
proof fn lemma_inked_none()
    ensures
        inked(Seq::<TokenView>::empty()) == Seq::<char>::empty(),
{
    lemma_ink_blanks();
}

/// The ink of two runs of tokens, one after the other, is the ink of the
/// first followed by the ink of the second.
proof fn lemma_inked_join(a: Seq<TokenView>, b: Seq<TokenView>)
    ensures
        inked(a + b) == inked(a) + inked(b),
{
    lemma_inked_add(a, b);
}

/// The tokens of the expressions after the first, seen from the last one.
proof fn lemma_more_snoc(items: Seq<ExpressionView>)
    requires
        items.len() > 0,
    ensures
        spell_more(items) == spell_more(items.drop_last()) + seq![token(TokenKind::Comma, ","@)]
            + spell_expression(items.last()),
    decreases items.len(),
{
    let comma = seq![token(TokenKind::Comma, ","@)];
    if items.len() == 1 {
        assert(items.drop_first() =~= Seq::<ExpressionView>::empty());
        assert(items.drop_last() =~= Seq::<ExpressionView>::empty());
        assert(spell_more(items.drop_first()) =~= Seq::<TokenView>::empty());
        assert(spell_more(items.drop_last()) =~= Seq::<TokenView>::empty());
        assert(spell_more(items) =~= spell_more(items.drop_last()) + comma + spell_expression(
            items.last(),
        ));
    } else {
        let tail = items.drop_first();
        lemma_more_snoc(tail);
        assert(tail.drop_last() =~= items.drop_last().drop_first());
        assert(tail.last() == items.last());
        assert(items.drop_last()[0] == items[0]);
        assert(spell_more(items) =~= spell_more(items.drop_last()) + comma + spell_expression(
            items.last(),
        ));
    }
}

/// The tokens of a list of expressions, seen from the last one.
proof fn lemma_list_snoc(items: Seq<ExpressionView>)
    requires
        items.len() > 1,
    ensures
        spell_list(items) == spell_list(items.drop_last()) + seq![token(TokenKind::Comma, ","@)]
            + spell_expression(items.last()),
{
    let tail = items.drop_first();
    lemma_more_snoc(tail);
    assert(tail.drop_last() =~= items.drop_last().drop_first());
    assert(tail.last() == items.last());
    assert(items.drop_last()[0] == items[0]);
    assert(spell_list(items) =~= spell_list(items.drop_last()) + seq![
        token(TokenKind::Comma, ","@),
    ] + spell_expression(items.last()));
}

/// The tokens of a sequence of statements, seen from the last one.
proof fn lemma_sequence_snoc(items: Seq<StatementView>)
    requires
        items.len() > 0,
    ensures
        spell_sequence(items) == spell_sequence(items.drop_last()) + spell_statement(items.last()),
    decreases items.len(),
{
    if items.len() == 1 {
        assert(items.drop_first() =~= Seq::<StatementView>::empty());
        assert(items.drop_last() =~= Seq::<StatementView>::empty());
        assert(spell_sequence(items.drop_first()) =~= Seq::<TokenView>::empty());
        assert(spell_sequence(items.drop_last()) =~= Seq::<TokenView>::empty());
        assert(spell_sequence(items) =~= spell_sequence(items.drop_last()) + spell_statement(
            items.last(),
        ));
    } else {
        let tail = items.drop_first();
        lemma_sequence_snoc(tail);
        assert(tail.drop_last() =~= items.drop_last().drop_first());
        assert(tail.last() == items.last());
        assert(items.drop_last()[0] == items[0]);
        assert(spell_sequence(items) =~= spell_sequence(items.drop_last()) + spell_statement(
            items.last(),
        ));
    }
}

/// White space apart, the rendering of an expression is the texts of its
/// tokens, one after the other.
pub proof fn lemma_expression_rendering(e: ExpressionView)
    ensures
        ink(render_expression(e)) == inked(spell_expression(e)),
    decreases e, 1nat,
{
    lemma_words();
    lemma_ink_blanks();
    let lparen = token(TokenKind::Lparen, "("@);
    let rparen = token(TokenKind::Rparen, ")"@);
    match e {
        ExpressionView::Identifier(name) => {
            lemma_inked_one(token(TokenKind::Ident, name));
        },
        ExpressionView::IntegerLiteral(value) => {
            lemma_inked_one(token(TokenKind::IntLiteral, crate::text::decimal(value)));
        },
        ExpressionView::BooleanLiteral(value) => {
            lemma_inked_one(
                token(
                    TokenKind::BoolLiteral,
                    if value {
                        "true"@
                    } else {
                        "false"@
                    },
                ),
            );
        },
        ExpressionView::PrefixExpression { operator, right } => {
            let sign = token(crate::round_trip::prefix_operator_kind(operator)->0, operator);
            let r = render_expression(*right);
            let sr = spell_expression(*right);
            lemma_expression_rendering(*right);
            lemma_ink_add("("@ + operator + r, ")"@);
            lemma_ink_add("("@ + operator, r);
            lemma_ink_add("("@, operator);
            assert(seq![lparen, sign] =~= seq![lparen] + seq![sign]);
            lemma_inked_join(seq![lparen] + seq![sign] + sr, seq![rparen]);
            lemma_inked_join(seq![lparen] + seq![sign], sr);
            lemma_inked_join(seq![lparen], seq![sign]);
            assert(spell_expression(e) =~= seq![lparen] + seq![sign] + sr + seq![rparen]);
            lemma_inked_one(lparen);
            lemma_inked_one(sign);
            lemma_inked_one(rparen);
        },
        ExpressionView::InfixExpression { left, operator, right } => {
            let sign = token(crate::round_trip::infix_operator_kind(operator)->0, operator);
            let l = render_expression(*left);
            let sl = spell_expression(*left);
            let r = render_expression(*right);
            let sr = spell_expression(*right);
            lemma_expression_rendering(*left);
            lemma_expression_rendering(*right);
            lemma_ink_add("("@ + l + " "@ + operator + " "@ + r, ")"@);
            lemma_ink_add("("@ + l + " "@ + operator + " "@, r);
            lemma_ink_add("("@ + l + " "@ + operator, " "@);
            lemma_ink_add("("@ + l + " "@, operator);
            lemma_ink_add("("@ + l, " "@);
            lemma_ink_add("("@, l);
            lemma_inked_join(seq![lparen] + sl + seq![sign] + sr, seq![rparen]);
            lemma_inked_join(seq![lparen] + sl + seq![sign], sr);
            lemma_inked_join(seq![lparen] + sl, seq![sign]);
            lemma_inked_join(seq![lparen], sl);
            lemma_inked_one(lparen);
            lemma_inked_one(sign);
            lemma_inked_one(rparen);
            assert(ink(render_expression(e)) =~= inked(spell_expression(e)));
        },
        ExpressionView::IfExpression { condition, consequence, alternative } => {
            let if_word = token(TokenKind::If, "if"@);
            let c = render_expression(*condition);
            let sc = spell_expression(*condition);
            let b = render_statement(*consequence);
            let sb = spell_statement(*consequence);
            lemma_expression_rendering(*condition);
            lemma_statement_rendering(*consequence);
            let head = "if ("@ + c + ") "@ + b;
            let spelled_head = seq![if_word] + seq![lparen] + sc + seq![rparen] + sb;
            lemma_ink_add("if ("@ + c + ") "@, b);
            lemma_ink_add("if ("@ + c, ") "@);
            lemma_ink_add("if ("@, c);
            lemma_inked_join(seq![if_word] + seq![lparen] + sc + seq![rparen], sb);
            lemma_inked_join(seq![if_word] + seq![lparen] + sc, seq![rparen]);
            lemma_inked_join(seq![if_word] + seq![lparen], sc);
            lemma_inked_join(seq![if_word], seq![lparen]);
            lemma_inked_one(if_word);
            lemma_inked_one(lparen);
            lemma_inked_one(rparen);
            assert(seq![if_word, lparen] =~= seq![if_word] + seq![lparen]);
            assert(ink(head) =~= inked(spelled_head));
            match alternative {
                Some(other) => {
                    let else_word = token(TokenKind::Else, "else"@);
                    let a = render_statement(*other);
                    let sa = spell_statement(*other);
                    lemma_statement_rendering(*other);
                    lemma_ink_add(head + " else "@, a);
                    lemma_ink_add(head, " else "@);
                    lemma_inked_join(spelled_head + seq![else_word], sa);
                    lemma_inked_join(spelled_head, seq![else_word]);
                    lemma_inked_one(else_word);
                    assert(spell_expression(e) =~= spelled_head + seq![else_word] + sa);
                    assert(ink(render_expression(e)) =~= inked(spell_expression(e)));
                },
                None => {
                    assert(spell_expression(e) =~= spelled_head);
                },
            }
        },
        ExpressionView::FunctionLiteral { parameters, body } => {
            let fn_word = token(TokenKind::Fn, "fn"@);
            let p = render_list(parameters);
            let sp = spell_list(parameters);
            let b = render_statement(*body);
            let sb = spell_statement(*body);
            lemma_list_rendering(parameters);
            lemma_statement_rendering(*body);
            lemma_ink_add("fn ("@ + p + ") "@, b);
            lemma_ink_add("fn ("@ + p, ") "@);
            lemma_ink_add("fn ("@, p);
            lemma_inked_join(seq![fn_word] + seq![lparen] + sp + seq![rparen], sb);
            lemma_inked_join(seq![fn_word] + seq![lparen] + sp, seq![rparen]);
            lemma_inked_join(seq![fn_word] + seq![lparen], sp);
            lemma_inked_join(seq![fn_word], seq![lparen]);
            lemma_inked_one(fn_word);
            lemma_inked_one(lparen);
            lemma_inked_one(rparen);
            assert(seq![fn_word, lparen] =~= seq![fn_word] + seq![lparen]);
            assert(spell_expression(e) =~= seq![fn_word] + seq![lparen] + sp + seq![rparen] + sb);
            assert(ink(render_expression(e)) =~= inked(spell_expression(e)));
        },
        ExpressionView::CallExpression { function, arguments } => {
            let f = render_expression(*function);
            let sf = spell_expression(*function);
            let a = render_list(arguments);
            let sa = spell_list(arguments);
            lemma_expression_rendering(*function);
            lemma_list_rendering(arguments);
            lemma_ink_add(f + "("@ + a, ")"@);
            lemma_ink_add(f + "("@, a);
            lemma_ink_add(f, "("@);
            lemma_inked_join(sf + seq![lparen] + sa, seq![rparen]);
            lemma_inked_join(sf + seq![lparen], sa);
            lemma_inked_join(sf, seq![lparen]);
            lemma_inked_one(lparen);
            lemma_inked_one(rparen);
            assert(ink(render_expression(e)) =~= inked(spell_expression(e)));
        },
    }
}

/// White space apart, the rendering of a list of expressions is the texts
/// of its tokens, one after the other.
pub proof fn lemma_list_rendering(items: Seq<ExpressionView>)
    ensures
        ink(render_list(items)) == inked(spell_list(items)),
    decreases items, 0nat,
{
    lemma_words();
    lemma_ink_blanks();
    if items.len() == 0 {
        lemma_inked_none();
    } else if items.len() == 1 {
        lemma_expression_rendering(items[0]);
        assert(items.drop_first() =~= Seq::<ExpressionView>::empty());
        assert(spell_more(items.drop_first()) =~= Seq::<TokenView>::empty());
        assert(spell_list(items) =~= spell_expression(items[0]));
    } else {
        let comma = token(TokenKind::Comma, ","@);
        let before = render_list(items.drop_last());
        let spelled_before = spell_list(items.drop_last());
        let last = render_expression(items.last());
        let spelled_last = spell_expression(items.last());
        lemma_list_rendering(items.drop_last());
        lemma_expression_rendering(items.last());
        lemma_list_snoc(items);
        lemma_ink_add(before + ", "@, last);
        lemma_ink_add(before, ", "@);
        lemma_inked_join(spelled_before + seq![comma], spelled_last);
        lemma_inked_join(spelled_before, seq![comma]);
        lemma_inked_one(comma);
        assert(ink(render_list(items)) =~= inked(spell_list(items)));
    }
}

/// White space apart, the rendering of a statement is the texts of its
/// tokens, one after the other.
pub proof fn lemma_statement_rendering(s: StatementView)
    ensures
        ink(render_statement(s)) == inked(spell_statement(s)),
    decreases s, 1nat,
{
    lemma_words();
    lemma_ink_blanks();
    let semicolon = token(TokenKind::SemiColon, ";"@);
    let lcurly = token(TokenKind::Lcurly, "{"@);
    let rcurly = token(TokenKind::Rcurly, "}"@);
    match s {
        StatementView::LetStatement { name, value } => {
            let let_word = token(TokenKind::Let, "let"@);
            let assign = token(TokenKind::Assign, "="@);
            let n = render_expression(name);
            let sn = spell_expression(name);
            let v = render_expression(value);
            let sv = spell_expression(value);
            lemma_expression_rendering(name);
            lemma_expression_rendering(value);
            lemma_ink_add("let "@ + n + " = "@ + v, ";"@);
            lemma_ink_add("let "@ + n + " = "@, v);
            lemma_ink_add("let "@ + n, " = "@);
            lemma_ink_add("let "@, n);
            lemma_inked_join(seq![let_word] + sn + seq![assign] + sv, seq![semicolon]);
            lemma_inked_join(seq![let_word] + sn + seq![assign], sv);
            lemma_inked_join(seq![let_word] + sn, seq![assign]);
            lemma_inked_join(seq![let_word], sn);
            lemma_inked_one(let_word);
            lemma_inked_one(assign);
            lemma_inked_one(semicolon);
            assert(ink(render_statement(s)) =~= inked(spell_statement(s)));
        },
        StatementView::ReturnStatement { value } => {
            let return_word = token(TokenKind::Return, "return"@);
            let v = render_expression(value);
            let sv = spell_expression(value);
            lemma_expression_rendering(value);
            lemma_ink_add("return "@ + v, ";"@);
            lemma_ink_add("return "@, v);
            lemma_inked_join(seq![return_word] + sv, seq![semicolon]);
            lemma_inked_join(seq![return_word], sv);
            lemma_inked_one(return_word);
            lemma_inked_one(semicolon);
            assert(ink(render_statement(s)) =~= inked(spell_statement(s)));
        },
        StatementView::ExpressionStatement { value } => {
            lemma_expression_rendering(value);
        },
        StatementView::BlockStatement { statements } => {
            let inside = render_sequence(statements);
            let spelled_inside = spell_sequence(statements);
            lemma_sequence_rendering(statements);
            lemma_ink_add("{\n"@ + inside, "\n}"@);
            lemma_ink_add("{\n"@, inside);
            lemma_inked_join(seq![lcurly] + spelled_inside, seq![rcurly]);
            lemma_inked_join(seq![lcurly], spelled_inside);
            lemma_inked_one(lcurly);
            lemma_inked_one(rcurly);
            assert(ink(render_statement(s)) =~= inked(spell_statement(s)));
        },
    }
}

/// White space apart, the rendering of the statements of a block is the
/// texts of their tokens, one after the other.
pub proof fn lemma_sequence_rendering(items: Seq<StatementView>)
    ensures
        ink(render_sequence(items)) == inked(spell_sequence(items)),
    decreases items, 0nat,
{
    lemma_ink_blanks();
    if items.len() == 0 {
        lemma_inked_none();
    } else {
        lemma_sequence_rendering(items.drop_last());
        lemma_statement_rendering(items.last());
        lemma_sequence_snoc(items);
        lemma_ink_add(render_sequence(items.drop_last()), render_statement(items.last()));
        lemma_inked_join(spell_sequence(items.drop_last()), spell_statement(items.last()));
    }
}

} // verus!

//! Signing out: the script that clears the cookies a page can see.

use vstd::prelude::*;
use vstd::string::StringExecFns;
use crate::models::{cookie_views, CookieMessage, CookieView};

verus! {

/// The statement that clears one cookie from within a page.
pub open spec fn clear_statement(c: CookieView) -> Seq<char> {
    "document.cookie = '"@ + c.name + "=; Max-Age=0; path="@ + c.path + "; domain="@ + c.domain
        + "; SameSite=Lax';"@
}

/// The statements for the cookies that a page can see: those that are not
/// `httpOnly`, in the order of the list.
pub open spec fn clear_statements(cookies: Seq<CookieView>) -> Seq<Seq<char>>
    decreases cookies.len(),
{
    if cookies.len() == 0 {
        Seq::empty()
    } else if cookies.last().http_only {
        clear_statements(cookies.drop_last())
    } else {
        clear_statements(cookies.drop_last()).push(clear_statement(cookies.last()))
    }
}

/// Lines put together with a line feed between each two.
pub open spec fn join_lines(lines: Seq<Seq<char>>) -> Seq<char>
    decreases lines.len(),
{
    if lines.len() == 0 {
        Seq::empty()
    } else if lines.len() == 1 {
        lines[0]
    } else {
        join_lines(lines.drop_last()) + seq!['\n'] + lines.last()
    }
}

/// The script that signs the page out of `cookies`, and how many cookies
/// it clears. The script is empty exactly when it clears none.
pub fn logout_script(cookies: &Vec<CookieMessage>) -> (r: (String, usize))
    ensures
        r.0@ == join_lines(clear_statements(cookie_views(cookies@))),
        r.1 == clear_statements(cookie_views(cookies@)).len(),
{
    let ghost all = cookie_views(cookies@);
    let mut script = String::new();
    let mut cleared: usize = 0;
    let mut i: usize = 0;
    while i < cookies.len()
        invariant
            i <= cookies.len(),
            all == cookie_views(cookies@),
            cleared <= i,
            cleared == clear_statements(all.take(i as int)).len(),
            script@ == join_lines(clear_statements(all.take(i as int))),
        decreases cookies.len() - i,
    {
        proof {
            let next = all.take(i + 1);
            assert(next.drop_last() =~= all.take(i as int));
            assert(next.last() == cookies@[i as int]@);
        }
        let cookie = &cookies[i];
        if !cookie.http_only {
            let ghost before = script@;
            let ghost lines = clear_statements(all.take(i as int));
            if cleared > 0 {
                script.push('\n');
            }
            let ghost head = script@;
            script.append("document.cookie = '");
            script.append(cookie.name.as_str());
            script.append("=; Max-Age=0; path=");
            script.append(cookie.path.as_str());
            script.append("; domain=");
            script.append(cookie.domain.as_str());
            script.append("; SameSite=Lax';");
            proof {
                assert(script@ =~= head + clear_statement(cookie@));
                let grown = lines.push(clear_statement(cookie@));
                assert(grown.drop_last() =~= lines);
                assert(grown.last() == clear_statement(cookie@));
                if cleared > 0 {
                    assert(head =~= before + seq!['\n']);
                } else {
                    assert(grown[0] == clear_statement(cookie@));
                    assert(before =~= Seq::<char>::empty());
                    assert(script@ =~= clear_statement(cookie@));
                }
            }
            cleared += 1;
        }
        i += 1;
    }
    assert(all.take(i as int) =~= all);
    (script, cleared)
}

} // verus!

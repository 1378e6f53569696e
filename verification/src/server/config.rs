//! Settings of the restream server.
use crate::text;
use crate::weburl::Url;
use vstd::prelude::*;
use vstd::string::*;

verus! {

/// Settings of the restream server.
#[derive(Debug)]
pub struct ServerConfig {
    /// The socket address to listen on.
    pub bind: String,
    /// The public address of the server.
    pub base_url: Url,
    /// The token that requests have to show, where one is set.
    pub auth_token: Option<String>,
}

impl Clone for ServerConfig {
    fn clone(&self) -> (res: ServerConfig)
        ensures
            res == *self,
    {
        ServerConfig {
            bind: self.bind.clone(),
            base_url: self.base_url.clone(),
            auth_token: text::copy_opt(&self.auth_token),
        }
    }
}

/// The query that carries a token, where there is one.
pub open spec fn key_suffix(token: Option<String>) -> Seq<char> {
    match token {
        Some(t) => "?key="@ + t@,
        None => Seq::empty(),
    }
}

/// The public address of the server with a slash at its end, so that paths can follow it.
pub open spec fn base_path(base: Seq<char>) -> Seq<char> {
    if base.len() > 0 && base.last() == '/' {
        base
    } else {
        base.push('/')
    }
}

impl ServerConfig {
    /// The query that carries the server's token, where it has one.
    pub fn key_query(&self) -> (res: String)
        ensures
            res@ == key_suffix(self.auth_token),
    {
        match &self.auth_token {
            Some(t) => {
                let mut s = "?key=".to_string();
                s.append(t.as_str());
                s
            },
            None => String::new(),
        }
    }

    /// The public address of the server with a slash at its end.
    pub fn base(&self) -> (res: String)
        ensures
            res@ == base_path(self.base_url@),
    {
        let mut s = self.base_url.as_str().to_string();
        let n = s.as_str().unicode_len();
        if n > 0 && s.as_str().get_char(n - 1) == '/' {
            return s;
        }
        s.push('/');
        s
    }
}

/// Paths follow the public address after exactly one slash: one is added only where the address
/// does not end in one. A token follows as the key of a query.
pub proof fn law_paths_follow_one_slash(base: Seq<char>, token: String)
    ensures
        base_path(base.push('/')) == base.push('/'),
        base_path(base).last() == '/',
        base.len() == 0 || base.last() != '/' ==> base_path(base) == base.push('/'),
        key_suffix(None).len() == 0,
        key_suffix(Some(token)) == "?key="@ + token@,
{
}

} // verus!

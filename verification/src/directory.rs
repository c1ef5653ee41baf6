//! The directory: how it is asked, and the records it answers with.
//!
//! The crate does not speak LDAP. It says how to connect and what to search
//! for; whoever drives it performs the search and hands back the records.

use crate::config::Config;
use crate::model::{lemma_views_push, lemma_views_take_next, view_of, views};
use vstd::hash_map::StringHashMap;
use vstd::prelude::*;
use vstd::string::StringExecFns;

verus! {

/// A directory record: its attributes by name, each with its values in the
/// order in which the directory gave them.
pub struct DirectoryRecord {
    attrs: StringHashMap<Vec<String>>,
}

impl View for DirectoryRecord {
    type V = Map<Seq<char>, Seq<Seq<char>>>;

    closed spec fn view(&self) -> Map<Seq<char>, Seq<Seq<char>>> {
        self.attrs@.map_values(|values: Vec<String>| views(values@))
    }
}

/// The first value of the attribute `name`, if the record has that attribute
/// and the attribute has a value.
pub open spec fn first_value(record: Map<Seq<char>, Seq<Seq<char>>>, name: Seq<char>) -> Option<
    Seq<char>,
> {
    if record.contains_key(name) && record[name].len() > 0 {
        Some(record[name][0])
    } else {
        None
    }
}

impl DirectoryRecord {
    /// A record without attributes.
    pub fn new() -> (r: DirectoryRecord)
        ensures
            r@ == Map::<Seq<char>, Seq<Seq<char>>>::empty(),
    {
        let r = DirectoryRecord { attrs: StringHashMap::new() };
        assert(r@ =~= Map::<Seq<char>, Seq<Seq<char>>>::empty());
        r
    }

    /// Sets the values of the attribute `name`, in place of any it had.
    pub fn insert(&mut self, name: String, values: Vec<String>)
        ensures
            final(self)@ == old(self)@.insert(name@, views(values@)),
    {
        self.attrs.insert(name, values);
        assert(self@ =~= old(self)@.insert(name@, views(values@)));
    }

    /// The first value of the attribute `name`.
    pub fn first(&self, name: &str) -> (r: Option<&String>)
        ensures
            view_of(r) == first_value(self@, name@),
    {
        match self.attrs.get(name) {
            Some(values) => {
                if values.len() > 0 {
                    Some(&values[0])
                } else {
                    None
                }
            },
            None => None,
        }
    }
}

/// How far below the base a search reaches.
#[derive(Clone, Copy, Debug, PartialEq, Eq, Structural)]
pub enum Scope {
    Base,
    OneLevel,
    Subtree,
}

/// When a search follows aliases.
#[derive(Clone, Copy, Debug, PartialEq, Eq, Structural)]
pub enum DerefAliases {
    Never,
    Searching,
    Finding,
    Always,
}

/// The name and password that a connection binds with.
#[derive(Debug, PartialEq, Eq)]
pub struct Bind {
    pub dn: String,
    pub password: String,
}

/// How to connect to the directory.
#[derive(Debug, PartialEq, Eq)]
pub struct Connection {
    pub url: String,
    /// What to bind with; `None` for a connection that does not bind.
    pub bind: Option<Bind>,
    pub no_tls_verify: bool,
    pub starttls: bool,
}

/// The model of a [`Connection`]; `bind` holds the name and the password.
pub struct ConnectionView {
    pub url: Seq<char>,
    pub bind: Option<(Seq<char>, Seq<char>)>,
    pub no_tls_verify: bool,
    pub starttls: bool,
}

impl View for Connection {
    type V = ConnectionView;

    open spec fn view(&self) -> ConnectionView {
        ConnectionView {
            url: self.url@,
            bind: match self.bind {
                Some(bind) => Some((bind.dn@, bind.password@)),
                None => None,
            },
            no_tls_verify: self.no_tls_verify,
            starttls: self.starttls,
        }
    }
}

/// One search of the directory.
#[derive(Debug, PartialEq, Eq)]
pub struct SearchRequest {
    pub connection: Connection,
    pub base_dn: String,
    pub scope: Scope,
    pub filter: String,
    /// The attributes asked for.
    pub attributes: Vec<String>,
    pub deref_aliases: DerefAliases,
}

/// The model of a [`SearchRequest`].
pub struct SearchRequestView {
    pub connection: ConnectionView,
    pub base_dn: Seq<char>,
    pub scope: Scope,
    pub filter: Seq<char>,
    pub attributes: Seq<Seq<char>>,
    pub deref_aliases: DerefAliases,
}

impl View for SearchRequest {
    type V = SearchRequestView;

    open spec fn view(&self) -> SearchRequestView {
        SearchRequestView {
            connection: self.connection@,
            base_dn: self.base_dn@,
            scope: self.scope,
            filter: self.filter@,
            attributes: views(self.attributes@),
            deref_aliases: self.deref_aliases,
        }
    }
}

impl Clone for SearchRequest {
    fn clone(&self) -> (r: SearchRequest)
        ensures
            r@ == self@,
    {
        let bind = match &self.connection.bind {
            Some(bind) => Some(Bind { dn: bind.dn.clone(), password: bind.password.clone() }),
            None => None,
        };
        let mut attributes: Vec<String> = Vec::new();
        let mut i: usize = 0;
        assert(views(attributes@) =~= views(self.attributes@.take(0)));
        while i < self.attributes.len()
            invariant
                i <= self.attributes.len(),
                views(attributes@) == views(self.attributes@.take(i as int)),
            decreases self.attributes.len() - i,
        {
            let attribute = self.attributes[i].clone();
            proof {
                lemma_views_push(attributes@, attribute);
                lemma_views_take_next(self.attributes@, i as int);
            }
            attributes.push(attribute);
            i = i + 1;
        }
        assert(self.attributes@.take(self.attributes.len() as int) =~= self.attributes@);
        SearchRequest {
            connection: Connection {
                url: self.connection.url.clone(),
                bind,
                no_tls_verify: self.connection.no_tls_verify,
                starttls: self.connection.starttls,
            },
            base_dn: self.base_dn.clone(),
            scope: self.scope,
            filter: self.filter.clone(),
            attributes,
            deref_aliases: self.deref_aliases,
        }
    }
}

/// What a connection binds with: the name and the password where both are
/// there, nothing where either is missing.
pub open spec fn bind_of(dn: Option<Seq<char>>, password: Option<Seq<char>>) -> Option<
    (Seq<char>, Seq<char>),
> {
    match (dn, password) {
        (Some(dn), Some(password)) => Some((dn, password)),
        _ => None,
    }
}

/// The attributes that a search asks for, given the one that holds the mail
/// address.
pub open spec fn search_attributes(mail_field: Seq<char>) -> Seq<Seq<char>> {
    seq!["uid"@, "givenname"@, "sn"@, "cn"@, mail_field]
}

/// The search that the settings describe, given the bind password.
pub open spec fn search_of(config: Config, bind_password: Option<Seq<char>>) -> SearchRequestView {
    SearchRequestView {
        connection: ConnectionView {
            url: config.url(),
            bind: bind_of(view_of(config.ldap_bind_dn), bind_password),
            no_tls_verify: match config.ldap_no_tls_verify {
                Some(no_tls_verify) => no_tls_verify,
                None => false,
            },
            starttls: match config.ldap_starttls {
                Some(starttls) => starttls,
                None => false,
            },
        },
        base_dn: config.ldap_search_base_dn@,
        scope: Scope::Subtree,
        filter: config.ldap_search_filter@,
        attributes: search_attributes(config.mail_field()),
        deref_aliases: DerefAliases::Always,
    }
}

/// Describes a connection to the directory that binds where it has both a
/// name and a password to bind with.
pub fn ldap_client(
    ldap_url: String,
    bind_dn: Option<String>,
    bind_pw: Option<String>,
    no_tls_verify: bool,
    starttls: bool,
) -> (r: Connection)
    ensures
        r@ == (ConnectionView {
            url: ldap_url@,
            bind: bind_of(view_of(bind_dn), view_of(bind_pw)),
            no_tls_verify,
            starttls,
        }),
{
    let bind = match bind_dn {
        Some(dn) => match bind_pw {
            Some(password) => Some(Bind { dn, password }),
            None => None,
        },
        None => None,
    };
    Connection { url: ldap_url, bind, no_tls_verify, starttls }
}

/// Describes the search for the directory's users: the whole subtree below
/// the base, filtered as the settings say, with aliases always followed,
/// asking for the naming attributes and the mail attribute.
pub fn search_entries(config: &Config, bind_password: Option<String>) -> (r: SearchRequest)
    ensures
        r@ == search_of(*config, view_of(bind_password)),
{
    let connection = ldap_client(
        config.get_ldap_url(),
        config.get_ldap_bind_dn(),
        bind_password,
        config.get_ldap_no_tls_verify(),
        config.get_ldap_starttls(),
    );
    let mail_field = config.get_ldap_mail_field();
    let mut attributes: Vec<String> = Vec::new();
    attributes.push(String::from_str("uid"));
    attributes.push(String::from_str("givenname"));
    attributes.push(String::from_str("sn"));
    attributes.push(String::from_str("cn"));
    attributes.push(mail_field);
    assert(views(attributes@) =~= search_attributes(config.mail_field()));
    SearchRequest {
        connection,
        base_dn: config.get_ldap_search_base_dn(),
        scope: Scope::Subtree,
        filter: config.get_ldap_search_filter(),
        attributes,
        deref_aliases: DerefAliases::Always,
    }
}

} // verus!

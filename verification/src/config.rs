//! Configuration data: the object-store bucket parameters, the endpoint
//! table mapping public path prefixes to backend path prefixes, and the
//! HTTP listener parameters.

use vstd::prelude::*;
use vstd::string::StrSliceExecFns;

verus! {

/// The object-store bucket parameters: where the backend lives and how to
/// sign requests to it. Keys may be left out of the configuration and
/// supplied from the process environment instead.
#[derive(Clone, Debug)]
pub struct Bucket {
    pub endpoint: Option<String>,
    pub region: String,
    pub bucket_name: String,
    pub access_key: Option<String>,
    pub secret_key: Option<String>,
}

impl Bucket {
    /// The custom endpoint URL, when one is configured.
    pub fn endpoint(&self) -> (r: Option<&str>)
        ensures
            match r {
                Some(s) => self.endpoint matches Some(e) && s@ == e@,
                None => self.endpoint is None,
            },
    {
        match &self.endpoint {
            Some(s) => Some(s.as_str()),
            None => None,
        }
    }

    /// The configured region name.
    pub fn region(&self) -> (r: &str)
        ensures
            r@ == self.region@,
    {
        self.region.as_str()
    }

    /// The configured bucket name.
    pub fn bucket_name(&self) -> (r: &str)
        ensures
            r@ == self.bucket_name@,
    {
        self.bucket_name.as_str()
    }

    /// The configured access key, or else the caller-supplied fallback (the
    /// `AWS_S3_ACCESS_KEY_ID` environment variable, read by the caller).
    pub fn access_key(&self, env_value: Option<String>) -> (r: Option<String>)
        ensures
            match self.access_key {
                Some(k) => r matches Some(v) && v@ == k@,
                None => r == env_value,
            },
    {
        match &self.access_key {
            Some(k) => Some(k.clone()),
            None => env_value,
        }
    }

    /// The configured secret key, or else the caller-supplied fallback (the
    /// `AWS_S3_SECRET_KEY` environment variable, read by the caller).
    pub fn secret_key(&self, env_value: Option<String>) -> (r: Option<String>)
        ensures
            match self.secret_key {
                Some(k) => r matches Some(v) && v@ == k@,
                None => r == env_value,
            },
    {
        match &self.secret_key {
            Some(k) => Some(k.clone()),
            None => env_value,
        }
    }
}

/// One mapping from a public URL path prefix to a backend object-key prefix.
#[derive(Clone, Debug)]
pub struct Endpoint {
    pub path: String,
    pub bucket_path: String,
}

impl Endpoint {
    pub fn new(path: String, bucket_path: String) -> (e: Endpoint)
        ensures
            e.path@ == path@,
            e.bucket_path@ == bucket_path@,
    {
        Endpoint { path, bucket_path }
    }

    /// The public path prefix this endpoint answers for.
    pub fn path(&self) -> (r: &str)
        ensures
            r@ == self.path@,
    {
        self.path.as_str()
    }

    /// The backend object-key prefix requests are rewritten onto.
    pub fn bucket_path(&self) -> (r: &str)
        ensures
            r@ == self.bucket_path@,
    {
        self.bucket_path.as_str()
    }
}

/// The endpoint table, ordered by descending public-prefix length so that
/// the most specific prefix is tried first.
#[derive(Clone, Debug)]
pub struct Endpoints(pub Vec<Endpoint>);

impl View for Endpoints {
    type V = Seq<Endpoint>;

    open spec fn view(&self) -> Seq<Endpoint> {
        self.0@
    }
}

/// The table order: public-prefix lengths never grow from one entry to the
/// next, so the most specific prefix stands first.
pub open spec fn sorted_by_prefix_len_desc(eps: Seq<Endpoint>) -> bool {
    forall|i: int, j: int|
        #![trigger eps[i], eps[j]]
        0 <= i <= j < eps.len() ==> eps[i].path@.len() >= eps[j].path@.len()
}

impl Endpoints {
    /// Builds the table from endpoints given in any order, sorting them so
    /// the longest public prefix comes first. Endpoints with prefixes of
    /// equal length are kept in no documented order.
    pub fn from_vec(vec: Vec<Endpoint>) -> (r: Endpoints)
        ensures
            sorted_by_prefix_len_desc(r@),
            r@.to_multiset() == vec@.to_multiset(),
    {
        let mut endpoints = Endpoints(vec);
        endpoints.sort_endpoints();
        endpoints
    }

    /// Re-sorts the table by descending public-prefix length; the table
    /// holds exactly the endpoints it held before.
    pub fn sort_endpoints(&mut self)
        ensures
            sorted_by_prefix_len_desc(final(self)@),
            final(self)@.to_multiset() == old(self)@.to_multiset(),
    {
        broadcast use vstd::seq_lib::group_to_multiset_ensures;
        broadcast use vstd::multiset::group_multiset_axioms;

        let ghost orig = self.0@;
        let mut out: Vec<Endpoint> = Vec::new();
        proof {
            assert(out@.to_multiset().add(self.0@.to_multiset()) =~= orig.to_multiset());
        }
        while self.0.len() > 0
            invariant
                sorted_by_prefix_len_desc(out@),
                forall|i: int, j: int|
                    #![trigger out@[i], self.0@[j]]
                    0 <= i < out@.len() && 0 <= j < self.0@.len()
                        ==> out@[i].path@.len() >= self.0@[j].path@.len(),
                out@.to_multiset().add(self.0@.to_multiset()) == orig.to_multiset(),
            decreases self.0.len(),
        {
            let m = self.index_of_longest();
            let ghost pre = self.0@;
            let ghost out_pre = out@;
            let e = self.0.remove(m);
            out.push(e);
            proof {
                broadcast use vstd::seq_lib::group_to_multiset_ensures;
                broadcast use vstd::multiset::group_multiset_axioms;

                pre.remove_ensures(m as int);
                pre.to_multiset_ensures();
                out_pre.to_multiset_ensures();
                assert(pre.contains(e)) by {
                    assert(pre[m as int] == e);
                }
                assert(pre.to_multiset().count(e) > 0);
                assert(out@ == out_pre.push(e));
                assert(out@.to_multiset() == out_pre.to_multiset().insert(e)) by {
                    assert(out_pre.push(e).to_multiset() =~= out_pre.to_multiset().insert(e));
                }
                assert(self.0@ == pre.remove(m as int));
                assert(self.0@.to_multiset() == pre.to_multiset().remove(e)) by {
                    assert(pre.remove(m as int).to_multiset() =~= pre.to_multiset().remove(pre[m as int]));
                }
                assert(out@.to_multiset().add(self.0@.to_multiset()) =~= out_pre.to_multiset().add(pre.to_multiset()));
                assert forall|i: int, j: int|
                    #![trigger out@[i], self.0@[j]]
                    0 <= i < out@.len() && 0 <= j < self.0@.len()
                        implies out@[i].path@.len() >= self.0@[j].path@.len() by {
                    if i < out_pre.len() {
                        assert(out@[i] == out_pre[i]);
                    } else {
                        assert(out@[i] == e);
                    }
                    if j < m {
                        assert(self.0@[j] == pre[j]);
                    } else {
                        assert(self.0@[j] == pre[j + 1]);
                    }
                }
                assert(sorted_by_prefix_len_desc(out@)) by {
                    assert forall|i: int, j: int|
                        #![trigger out@[i], out@[j]]
                        0 <= i <= j < out@.len()
                            implies out@[i].path@.len() >= out@[j].path@.len() by {
                        if j < out_pre.len() {
                            assert(out@[i] == out_pre[i] && out@[j] == out_pre[j]);
                        } else {
                            assert(out@[j] == e);
                            if i < out_pre.len() {
                                assert(out@[i] == out_pre[i]);
                                assert(out_pre[i].path@.len() >= pre[m as int].path@.len());
                            }
                        }
                    }
                }
            }
        }
        self.0 = out;
    }

    /// Index of an endpoint whose public prefix is at least as long as every
    /// other prefix still in the table.
    fn index_of_longest(&self) -> (m: usize)
        requires
            self.0@.len() > 0,
        ensures
            m < self.0@.len(),
            forall|j: int|
                0 <= j < self.0@.len()
                    ==> self.0@[m as int].path@.len() >= (#[trigger] self.0@[j]).path@.len(),
    {
        let n = self.0.len();
        let mut m: usize = 0;
        let mut best: usize = self.0[0].path.as_str().unicode_len();
        let mut j: usize = 1;
        while j < n
            invariant
                n == self.0@.len(),
                m < n,
                1 <= j <= n,
                best == self.0@[m as int].path@.len(),
                forall|k: int|
                    0 <= k < j ==> best >= (#[trigger] self.0@[k]).path@.len(),
            decreases n - j,
        {
            let len_j = self.0[j].path.as_str().unicode_len();
            if len_j > best {
                m = j;
                best = len_j;
            }
            j += 1;
        }
        m
    }

    /// The endpoints in table order, most specific prefix first.
    pub fn iter(&self) -> (r: &Vec<Endpoint>)
        ensures
            r@ == self@,
    {
        &self.0
    }
}

/// The HTTP listener parameters.
#[derive(Clone, Debug)]
pub struct Http {
    pub bind: String,
    pub port: u16,
}

impl Default for Http {
    /// Listening on the loopback address and port 8000 unless configured.
    fn default() -> (r: Http)
        ensures
            r.bind@ == "127.0.0.1"@,
            r.port == 8000,
    {
        Http { bind: "127.0.0.1".to_owned(), port: 8000 }
    }
}

impl Http {
    /// The address to bind the listener to.
    pub fn bind(&self) -> (r: &str)
        ensures
            r@ == self.bind@,
    {
        self.bind.as_str()
    }

    /// The port to listen on.
    pub fn port(&self) -> (r: u16)
        ensures
            r == self.port,
    {
        self.port
    }
}

/// The whole process configuration: bucket, endpoint table and listener.
#[derive(Clone, Debug)]
pub struct Configuration {
    pub bucket: Bucket,
    pub endpoints: Endpoints,
    pub http: Http,
}

impl Configuration {
    pub fn new(bucket: Bucket, endpoints: Endpoints, http: Http) -> (c: Configuration)
        ensures
            c.bucket == bucket,
            c.endpoints == endpoints,
            c.http == http,
    {
        Configuration { bucket, endpoints, http }
    }

    /// Puts a freshly loaded configuration in order: sorts the endpoint
    /// table so the longest public prefix comes first.
    pub fn initialize(&mut self)
        ensures
            sorted_by_prefix_len_desc(final(self).endpoints@),
            final(self).endpoints@.to_multiset() == old(self).endpoints@.to_multiset(),
            final(self).bucket == old(self).bucket,
            final(self).http == old(self).http,
    {
        self.endpoints.sort_endpoints();
    }

    /// The bucket parameters.
    pub fn bucket(&self) -> (r: &Bucket)
        ensures
            r == self.bucket,
    {
        &self.bucket
    }

    /// The endpoint table.
    pub fn endpoints(&self) -> (r: &Endpoints)
        ensures
            r == self.endpoints,
    {
        &self.endpoints
    }

    /// The listener parameters.
    pub fn http(&self) -> (r: &Http)
        ensures
            r == self.http,
    {
        &self.http
    }
}

} // verus!

//! Settings of the process: where to read records from and where to put
//! the archives.
use vstd::prelude::*;
use vstd::string::*;

verus! {

#[derive(Clone, Debug)]
pub struct KafkaAuthConfig {
    pub username: String,
    pub password: String,
}

#[derive(Clone, Debug)]
pub struct KafkaConfig {
    pub brokers: String,
    /// Topics to archive, separated by commas.
    pub topics: String,
    pub groupid: String,
    pub auth: KafkaAuthConfig,
}

/// Deployment environment.
#[derive(PartialEq, Eq, Structural, Clone, Copy, Debug)]
pub enum AppEnv {
    Development,
    Production,
}

#[derive(Clone, Debug)]
pub struct S3Config {
    pub bucketprefix: String,
}

#[derive(Clone, Debug)]
pub struct Settings {
    pub env: AppEnv,
    pub kafka: KafkaConfig,
    pub s3: S3Config,
}

impl AppEnv {
    /// The environment's name as written in configuration.
    pub fn name(&self) -> (r: &'static str)
        ensures
            *self == AppEnv::Development ==> r@ == "development"@,
            *self == AppEnv::Production ==> r@ == "production"@,
    {
        match self {
            AppEnv::Development => "development",
            AppEnv::Production => "production",
        }
    }
}

/// The pieces of `s` between commas, in order; a string without a comma is
/// one piece.
pub open spec fn split_commas(s: Seq<char>) -> Seq<Seq<char>>
    decreases s.len(),
{
    if s.len() == 0 {
        seq![Seq::<char>::empty()]
    } else {
        let init = split_commas(s.drop_last());
        if s.last() == ',' {
            init.push(Seq::<char>::empty())
        } else {
            init.update(init.len() - 1, init.last().push(s.last()))
        }
    }
}

pub open spec fn string_views(v: Seq<String>) -> Seq<Seq<char>> {
    v.map_values(|x: String| x@)
}

impl KafkaConfig {
    /// The topics named in `topics`.
    pub fn topic_list(&self) -> (r: Vec<String>)
        ensures
            string_views(r@) == split_commas(self.topics@),
    {
        let s = self.topics.as_str();
        let n = s.unicode_len();
        let mut out: Vec<String> = Vec::new();
        let mut start: usize = 0;
        let mut i: usize = 0;
        assert(s@.subrange(0, 0) =~= Seq::<char>::empty());
        assert(string_views(out@) =~= Seq::<Seq<char>>::empty());
        assert(split_commas(s@.subrange(0, 0)) =~= string_views(out@).push(s@.subrange(0, 0)));
        while i < n
            invariant
                n == s@.len(),
                s@ == self.topics@,
                start <= i <= n,
                split_commas(s@.subrange(0, i as int)) == string_views(out@).push(
                    s@.subrange(start as int, i as int),
                ),
            decreases n - i,
        {
            let c = s.get_char(i);
            let ghost prev = s@.subrange(0, i as int);
            let ghost next = s@.subrange(0, i + 1);
            let ghost views_before = string_views(out@);
            let ghost piece_before = s@.subrange(start as int, i as int);
            assert(next.drop_last() =~= prev);
            assert(next.last() == c);
            if c == ',' {
                let piece = String::from_str(s.substring_char(start, i));
                out.push(piece);
                start = i + 1;
                assert(string_views(out@) =~= views_before.push(piece_before));
                assert(s@.subrange(start as int, start as int) =~= Seq::<char>::empty());
            } else {
                assert(s@.subrange(start as int, i + 1) =~= piece_before.push(c));
                assert(views_before.push(piece_before).update(
                    views_before.len() as int,
                    piece_before.push(c),
                ) =~= views_before.push(piece_before.push(c)));
            }
            i = i + 1;
        }
        let last = String::from_str(s.substring_char(start, n));
        let ghost views_before = string_views(out@);
        out.push(last);
        assert(s@.subrange(0, n as int) =~= s@);
        assert(string_views(out@) =~= views_before.push(last@));
        out
    }
}

} // verus!

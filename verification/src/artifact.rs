//! Artifact coordinates and the paths derived from them.

use vstd::prelude::*;
use crate::model::{clone_opt_string, view_opt};
use crate::text::{from_chars, push_str, split, split_chars, to_chars};

verus! {

/// The coordinate of an artifact: group, name, version and, for some, a
/// classifier.
#[derive(Debug)]
pub struct Artifact {
    pub group: String,
    pub name: String,
    pub version: String,
    pub classifier: Option<String>,
}

/// The mathematical value of an [`Artifact`].
pub struct ArtifactView {
    pub group: Seq<char>,
    pub name: Seq<char>,
    pub version: Seq<char>,
    pub classifier: Option<Seq<char>>,
}

impl View for Artifact {
    type V = ArtifactView;

    open spec fn view(&self) -> ArtifactView {
        ArtifactView {
            group: self.group@,
            name: self.name@,
            version: self.version@,
            classifier: view_opt(self.classifier),
        }
    }
}

impl Clone for Artifact {
    fn clone(&self) -> (out: Self)
        ensures
            out@ == self@,
    {
        Artifact {
            group: self.group.clone(),
            name: self.name.clone(),
            version: self.version.clone(),
            classifier: clone_opt_string(&self.classifier),
        }
    }
}

/// A group with a slash in place of each dot.
pub open spec fn group_path(group: Seq<char>) -> Seq<char> {
    group.map_values(
        |c: char|
            if c == '.' {
                '/'
            } else {
                c
            },
    )
}

/// `-classifier`, or nothing where there is no classifier.
pub open spec fn classifier_suffix(classifier: Option<Seq<char>>) -> Seq<char> {
    match classifier {
        Some(c) => seq!['-'] + c,
        None => Seq::<char>::empty(),
    }
}

/// The path of an artifact below the libraries directory:
/// `<group-path>/<name>-<version>[-<classifier>].jar`.
pub open spec fn artifact_path(artifact: ArtifactView) -> Seq<char> {
    group_path(artifact.group) + seq!['/'] + artifact.name + seq!['-'] + artifact.version
        + classifier_suffix(artifact.classifier) + ".jar"@
}

/// The artifact that a coordinate `group:name:version[:classifier]` names.
pub open spec fn artifact_of(coordinate: Seq<char>) -> Option<ArtifactView> {
    let pieces = split(coordinate, ':');
    if pieces.len() == 3 {
        Some(
            ArtifactView {
                group: pieces[0],
                name: pieces[1],
                version: pieces[2],
                classifier: None,
            },
        )
    } else if pieces.len() == 4 {
        Some(
            ArtifactView {
                group: pieces[0],
                name: pieces[1],
                version: pieces[2],
                classifier: Some(pieces[3]),
            },
        )
    } else {
        None
    }
}

/// The coordinate of an artifact: `group:name:version`, and `:classifier`
/// where it has one.
pub open spec fn coordinate(artifact: ArtifactView) -> Seq<char> {
    artifact.group + seq![':'] + artifact.name + seq![':'] + artifact.version + match artifact.classifier {
        Some(c) => seq![':'] + c,
        None => Seq::<char>::empty(),
    }
}

/// The artifact with the classifier replaced, where one is given.
pub open spec fn classified(artifact: ArtifactView, classifier: Option<Seq<char>>) -> ArtifactView {
    match classifier {
        Some(c) => ArtifactView { classifier: Some(c), ..artifact },
        None => artifact,
    }
}

impl Artifact {
    /// Reads a coordinate of three or four parts separated by colons.
    pub fn parse(coordinate: &str) -> (parsed: Option<Artifact>)
        ensures
            view_opt(parsed) == artifact_of(coordinate@),
    {
        let chars = to_chars(coordinate);
        let pieces = split_chars(&chars, ':');
        if pieces.len() == 3 {
            Some(
                Artifact {
                    group: from_chars(pieces[0].as_slice()),
                    name: from_chars(pieces[1].as_slice()),
                    version: from_chars(pieces[2].as_slice()),
                    classifier: None,
                },
            )
        } else if pieces.len() == 4 {
            Some(
                Artifact {
                    group: from_chars(pieces[0].as_slice()),
                    name: from_chars(pieces[1].as_slice()),
                    version: from_chars(pieces[2].as_slice()),
                    classifier: Some(from_chars(pieces[3].as_slice())),
                },
            )
        } else {
            None
        }
    }

    /// The coordinate of the artifact.
    pub fn to_string(&self) -> (text: String)
        ensures
            text@ == coordinate(self@),
    {
        let mut out: Vec<char> = to_chars(self.group.as_str());
        out.push(':');
        push_str(&mut out, self.name.as_str());
        out.push(':');
        push_str(&mut out, self.version.as_str());
        if let Some(classifier) = &self.classifier {
            out.push(':');
            push_str(&mut out, classifier.as_str());
        }
        assert(out@ =~= coordinate(self@));
        from_chars(out.as_slice())
    }

    /// A copy of the artifact, with `classifier` in place of its own where
    /// one is given.
    pub fn with_classifier(&self, classifier: Option<&str>) -> (out: Artifact)
        ensures
            out@ == classified(self@, view_opt(classifier)),
    {
        let mut out = self.clone();
        if let Some(c) = classifier {
            out.classifier = Some(c.to_owned());
        }
        out
    }

    /// The path of the artifact below the libraries directory.
    pub fn get_path_string(&self) -> (path: String)
        ensures
            path@ == artifact_path(self@),
    {
        let group = to_chars(self.group.as_str());
        let mut out: Vec<char> = Vec::new();
        let mut i: usize = 0;
        while i < group.len()
            invariant
                i <= group.len(),
                group@ == self.group@,
                out@ == group_path(group@).take(i as int),
            decreases group.len() - i,
        {
            let c = group[i];
            out.push(if c == '.' {
                '/'
            } else {
                c
            });
            assert(out@ =~= group_path(group@).take(i + 1));
            i += 1;
        }
        assert(out@ =~= group_path(self.group@));
        out.push('/');
        push_str(&mut out, self.name.as_str());
        out.push('-');
        push_str(&mut out, self.version.as_str());
        if let Some(classifier) = &self.classifier {
            out.push('-');
            push_str(&mut out, classifier.as_str());
        }
        push_str(&mut out, ".jar");
        assert(out@ =~= artifact_path(self@));
        from_chars(out.as_slice())
    }

    /// The path of the artifact below the directory `root`.
    pub fn get_local_path(&self, root: &str) -> (path: String)
        ensures
            path@ == root@ + seq!['/'] + artifact_path(self@),
    {
        let relative = self.get_path_string();
        join_path(root, relative.as_str())
    }
}

/// `base/name`.
pub fn join_path(base: &str, name: &str) -> (path: String)
    ensures
        path@ == base@ + seq!['/'] + name@,
{
    let mut out: Vec<char> = to_chars(base);
    out.push('/');
    push_str(&mut out, name);
    assert(out@ =~= base@ + seq!['/'] + name@);
    from_chars(out.as_slice())
}

} // verus!

//! Portfolio content and its editing commands.
use vstd::prelude::*;
use crate::domain::session::{
    PortfolioSnapshot, PortfolioView, ProjectSnapshot, ProjectView, SessionSnapshot, empty_portfolio,
    project_snapshots_view,
};
use crate::text::{chars_of, range_starts, starts};
use vstd::view::View as _;

verus! {

/// The destinations of the application.
#[derive(Clone, Copy, Debug, PartialEq, Eq, Structural)]
pub enum View {
    Home,
    About,
    Projects,
    Contact,
    EditPortfolio,
    Calculator,
    TextAnalyzer,
    ColorConverter,
}

impl Default for View {
    fn default() -> (r: Self)
        ensures
            r == View::Home,
    {
        View::Home
    }
}

/// Editable portfolio content.
#[derive(Debug, PartialEq, Eq)]
pub struct Portfolio {
    pub display_name: String,
    pub headline: String,
    pub about: String,
    pub projects: Vec<Project>,
    pub email: String,
    pub website: String,
    pub github: String,
}

/// Editable project content.
#[derive(Debug, PartialEq, Eq)]
pub struct Project {
    pub title: String,
    pub summary: String,
    pub url: String,
}

/// The portfolio fields a command can set.
#[derive(Clone, Copy, Debug, PartialEq, Eq, Structural)]
pub enum PortfolioField {
    DisplayName,
    Headline,
    About,
    Email,
    Website,
    Github,
}

/// The project fields a command can set.
#[derive(Clone, Copy, Debug, PartialEq, Eq, Structural)]
pub enum ProjectField {
    Title,
    Summary,
    Url,
}

/// Why a portfolio command could not be applied.
#[derive(Clone, Copy, Debug, PartialEq, Eq, Structural)]
pub enum PortfolioError {
    ProjectNotFound { index: usize },
}

impl vstd::view::View for Project {
    type V = ProjectView;

    open spec fn view(&self) -> ProjectView {
        ProjectView { title: self.title@, summary: self.summary@, url: self.url@ }
    }
}

pub open spec fn projects_view(p: Seq<Project>) -> Seq<ProjectView> {
    Seq::new(p.len(), |i: int| p[i]@)
}

impl vstd::view::View for Portfolio {
    type V = PortfolioView;

    open spec fn view(&self) -> PortfolioView {
        PortfolioView {
            display_name: self.display_name@,
            headline: self.headline@,
            about: self.about@,
            projects: projects_view(self.projects@),
            email: self.email@,
            website: self.website@,
            github: self.github@,
        }
    }
}

/// An empty project.
pub open spec fn empty_project() -> ProjectView {
    ProjectView { title: Seq::empty(), summary: Seq::empty(), url: Seq::empty() }
}

/// The portfolio with one field set.
pub open spec fn with_field(p: PortfolioView, field: PortfolioField, value: Seq<char>) -> PortfolioView {
    match field {
        PortfolioField::DisplayName => PortfolioView { display_name: value, ..p },
        PortfolioField::Headline => PortfolioView { headline: value, ..p },
        PortfolioField::About => PortfolioView { about: value, ..p },
        PortfolioField::Email => PortfolioView { email: value, ..p },
        PortfolioField::Website => PortfolioView { website: value, ..p },
        PortfolioField::Github => PortfolioView { github: value, ..p },
    }
}

/// The project with one field set.
pub open spec fn with_project_field(p: ProjectView, field: ProjectField, value: Seq<char>) -> ProjectView {
    match field {
        ProjectField::Title => ProjectView { title: value, ..p },
        ProjectField::Summary => ProjectView { summary: value, ..p },
        ProjectField::Url => ProjectView { url: value, ..p },
    }
}

impl Default for Project {
    fn default() -> (r: Self)
        ensures
            r@ == empty_project(),
    {
        Project { title: String::new(), summary: String::new(), url: String::new() }
    }
}

impl Default for Portfolio {
    fn default() -> (r: Self)
        ensures
            r@ == empty_portfolio(),
    {
        let r = Portfolio {
            display_name: String::new(),
            headline: String::new(),
            about: String::new(),
            projects: Vec::new(),
            email: String::new(),
            website: String::new(),
            github: String::new(),
        };
        assert(projects_view(r.projects@) =~= Seq::<ProjectView>::empty());
        r
    }
}

impl Clone for Project {
    fn clone(&self) -> (r: Self)
        ensures
            r@ == self@,
    {
        Project { title: self.title.clone(), summary: self.summary.clone(), url: self.url.clone() }
    }
}

impl Clone for Portfolio {
    fn clone(&self) -> (r: Self)
        ensures
            r@ == self@,
    {
        let mut projects: Vec<Project> = Vec::new();
        let mut i: usize = 0;
        while i < self.projects.len()
            invariant
                i <= self.projects@.len(),
                projects_view(projects@) == projects_view(self.projects@).take(i as int),
            decreases self.projects@.len() - i,
        {
            let p = self.projects[i].clone();
            let ghost prev = projects@;
            projects.push(p);
            assert(projects_view(projects@) == projects_view(prev).push(p@));
            assert(projects_view(self.projects@).take(i + 1) == projects_view(self.projects@).take(
                i as int,
            ).push(p@));
            i = i + 1;
        }
        assert(projects_view(self.projects@).take(self.projects@.len() as int) == projects_view(
            self.projects@,
        ));
        Portfolio {
            display_name: self.display_name.clone(),
            headline: self.headline.clone(),
            about: self.about.clone(),
            projects,
            email: self.email.clone(),
            website: self.website.clone(),
            github: self.github.clone(),
        }
    }
}

impl Project {
    /// The persisted form of the project.
    pub fn snapshot(&self) -> (r: ProjectSnapshot)
        ensures
            r@ == self@,
    {
        ProjectSnapshot { title: self.title.clone(), summary: self.summary.clone(), url: self.url.clone() }
    }

    /// The project a persisted form describes.
    pub fn from_snapshot(snapshot: ProjectSnapshot) -> (r: Self)
        ensures
            r@ == snapshot@,
    {
        Project { title: snapshot.title, summary: snapshot.summary, url: snapshot.url }
    }
}

impl Portfolio {
    /// Sets one editable field.
    pub fn set_field(&mut self, field: PortfolioField, value: String)
        ensures
            final(self)@ == with_field(old(self)@, field, value@),
    {
        match field {
            PortfolioField::DisplayName => self.display_name = value,
            PortfolioField::Headline => self.headline = value,
            PortfolioField::About => self.about = value,
            PortfolioField::Email => self.email = value,
            PortfolioField::Website => self.website = value,
            PortfolioField::Github => self.github = value,
        }
    }

    /// Adds one empty project at the end.
    pub fn add_project(&mut self)
        ensures
            final(self)@ == (PortfolioView {
                projects: old(self)@.projects.push(empty_project()),
                ..old(self)@
            }),
    {
        let ghost before = projects_view(self.projects@);
        self.projects.push(Project::default());
        assert(projects_view(self.projects@) == before.push(empty_project()));
    }

    /// Sets one field of the project at `index`; refused, with nothing
    /// changed, when there is no such project.
    pub fn set_project_field(&mut self, index: usize, field: ProjectField, value: String) -> (r: Result<
        (),
        PortfolioError,
    >)
        ensures
            index < old(self)@.projects.len() ==> r is Ok && final(self)@ == (PortfolioView {
                projects: old(self)@.projects.update(
                    index as int,
                    with_project_field(old(self)@.projects[index as int], field, value@),
                ),
                ..old(self)@
            }),
            index >= old(self)@.projects.len() ==> r == Err::<(), PortfolioError>(
                PortfolioError::ProjectNotFound { index },
            ) && final(self)@ == old(self)@,
    {
        if index >= self.projects.len() {
            return Err(PortfolioError::ProjectNotFound { index });
        }
        let ghost before = projects_view(self.projects@);
        let old_project = &self.projects[index];
        let mut project = Project {
            title: old_project.title.clone(),
            summary: old_project.summary.clone(),
            url: old_project.url.clone(),
        };
        match field {
            ProjectField::Title => project.title = value,
            ProjectField::Summary => project.summary = value,
            ProjectField::Url => project.url = value,
        }
        let ghost pv = project@;
        self.projects.set(index, project);
        assert(projects_view(self.projects@) == before.update(index as int, pv));
        Ok(())
    }

    /// The persisted form of the portfolio.
    pub fn snapshot(&self) -> (r: PortfolioSnapshot)
        ensures
            r@ == self@,
    {
        let mut projects: Vec<ProjectSnapshot> = Vec::new();
        let mut i: usize = 0;
        while i < self.projects.len()
            invariant
                i <= self.projects@.len(),
                project_snapshots_view(projects@) == projects_view(self.projects@).take(i as int),
            decreases self.projects@.len() - i,
        {
            let p = self.projects[i].snapshot();
            let ghost prev = projects@;
            projects.push(p);
            assert(project_snapshots_view(projects@) == project_snapshots_view(prev).push(p@));
            assert(projects_view(self.projects@).take(i + 1) == projects_view(self.projects@).take(
                i as int,
            ).push(p@));
            i = i + 1;
        }
        assert(projects_view(self.projects@).take(self.projects@.len() as int) == projects_view(
            self.projects@,
        ));
        PortfolioSnapshot {
            display_name: self.display_name.clone(),
            headline: self.headline.clone(),
            about: self.about.clone(),
            projects,
            email: self.email.clone(),
            website: self.website.clone(),
            github: self.github.clone(),
        }
    }

    /// The portfolio a persisted form describes.
    pub fn from_snapshot(snapshot: PortfolioSnapshot) -> (r: Self)
        ensures
            r@ == snapshot@,
    {
        let ghost expected = snapshot@;
        let PortfolioSnapshot { display_name, headline, about, projects: stored, email, website, github } =
            snapshot;
        let mut projects: Vec<Project> = Vec::new();
        let mut i: usize = 0;
        while i < stored.len()
            invariant
                i <= stored@.len(),
                project_snapshots_view(stored@) == expected.projects,
                projects_view(projects@) == expected.projects.take(i as int),
            decreases stored@.len() - i,
        {
            let p = Project {
                title: stored[i].title.clone(),
                summary: stored[i].summary.clone(),
                url: stored[i].url.clone(),
            };
            let ghost prev = projects@;
            assert(p@ == expected.projects[i as int]);
            projects.push(p);
            assert(projects_view(projects@) == projects_view(prev).push(p@));
            assert(expected.projects.take(i + 1) == expected.projects.take(i as int).push(p@));
            i = i + 1;
        }
        assert(expected.projects.take(stored@.len() as int) == expected.projects);
        Portfolio { display_name, headline, about, projects, email, website, github }
    }
}

/// `is_valid_url`: an `https://` or `http://` address.
pub fn is_valid_url(url: &str) -> (r: bool)
    ensures
        r == (starts(url@, "https://"@) || starts(url@, "http://"@)),
{
    let v = chars_of(url);
    assert(v@.subrange(0, v@.len() as int) == v@);
    range_starts(&v, 0, v.len(), "https://") || range_starts(&v, 0, v.len(), "http://")
}

/// `is_valid_email`: an address holding an `@`.
pub fn is_valid_email(email: &str) -> (r: bool)
    ensures
        r == email@.contains('@'),
{
    let v = chars_of(email);
    let mut i: usize = 0;
    while i < v.len()
        invariant
            i <= v@.len(),
            v@ == email@,
            forall|j: int| 0 <= j < i ==> v@[j] != '@',
        decreases v@.len() - i,
    {
        if v[i] == '@' {
            return true;
        }
        i = i + 1;
    }
    false
}

/// A project with no title, summary or link.
pub open spec fn is_blank(p: ProjectView) -> bool {
    p.title.len() == 0 && p.summary.len() == 0 && p.url.len() == 0
}

/// The positions of the projects worth showing: those that are not blank,
/// in their order.
pub open spec fn visible_spec(projects: Seq<ProjectView>) -> Seq<usize>
    decreases projects.len(),
{
    if projects.len() == 0 {
        Seq::empty()
    } else {
        let rest = visible_spec(projects.drop_last());
        if is_blank(projects.last()) {
            rest
        } else {
            rest.push((projects.len() - 1) as usize)
        }
    }
}

/// The positions of the projects the Projects workspace shows: those that
/// are not blank, in their order.
pub fn visible_projects(portfolio: &Portfolio) -> (r: Vec<usize>)
    ensures
        r@ == visible_spec(portfolio@.projects),
{
    let ghost ps = portfolio@.projects;
    let mut r: Vec<usize> = Vec::new();
    let mut i: usize = 0;
    while i < portfolio.projects.len()
        invariant
            i <= ps.len(),
            ps == portfolio@.projects,
            ps.len() == portfolio.projects@.len(),
            r@ == visible_spec(ps.take(i as int)),
        decreases ps.len() - i,
    {
        let p = &portfolio.projects[i];
        let blank = chars_of(p.title.as_str()).len() == 0 && chars_of(p.summary.as_str()).len() == 0
            && chars_of(p.url.as_str()).len() == 0;
        proof {
            assert(ps.take(i + 1).drop_last() == ps.take(i as int));
            assert(ps.take(i + 1).last() == p@);
        }
        if !blank {
            r.push(i);
        }
        i = i + 1;
    }
    assert(ps.take(ps.len() as int) == ps);
    r
}

/// The portfolio part of a persisted session.
pub fn portfolio_from_session(snapshot: &SessionSnapshot) -> (r: Portfolio)
    ensures
        r@ == snapshot@.portfolio,
{
    Portfolio::from_snapshot(snapshot.portfolio.clone())
}

} // verus!

//! The style sheet and the script of the HTML document.
use crate::observations::QcObservationsReport;
use crate::orbit_proj::QcOrbitProjections;
use crate::orbital::Projection;
use crate::report::QcRunReport;
use crate::summaries::QcContextSummary;
use vstd::prelude::*;

verus! {

/// The report, as the HTML document names it.
pub type QcReport = QcRunReport;

/// Style sheet of the HTML document.
pub const PAGE_CSS: &'static str = "
:root {
  --bg-color: #1e1e2f;
  --primary: #00bcd4;
  --secondary: #44475a;
  --text-color: #f8f8f2;
  --accent: #8be9fd;
  --card-bg: #2e2e3e;
}

body {
  margin: 0;
  font-family: 'Segoe UI', sans-serif;
  background-color: var(--bg-color);
  color: var(--text-color);
  display: flex;
  min-height: 100vh;
}

nav {
  width: 250px;
  background-color: var(--secondary);
  padding: 2rem 1rem;
  box-shadow: 2px 0 5px rgba(0, 0, 0, 0.3);
  display: flex;
  flex-direction: column;
  gap: 1rem;
  transition: transform 0.4s ease;
}

nav.hidden {
  transform: translateX(-100%);
}

nav h1 {
  font-size: 1.5rem;
  color: var(--accent);
  margin-bottom: 2rem;
}

nav a {
  color: var(--text-color);
  text-decoration: none;
  padding: 0.5rem 1rem;
  border-radius: 6px;
  transition: background 0.3s ease;
  cursor: pointer;
}

nav a:hover {
  background-color: var(--accent);
  color: #000;
}

.content {
  flex-grow: 1;
  padding: 2rem;
  display: flex;
  flex-direction: column;
}

.section {
  background-color: var(--card-bg);
  border-radius: 10px;
  padding: 1.5rem;
  margin-bottom: 2rem;
  box-shadow: 0 0 10px rgba(0,0,0,0.2);
  display: none;
}

.section.active {
  display: block;
}

.section h2 {
  margin-top: 0;
  color: var(--primary);
}

.plot-placeholder {
  background-color: #333;
  height: 300px;
  border: 2px dashed #555;
  display: flex;
  align-items: center;
  justify-content: center;
  color: #999;
  border-radius: 8px;
  font-style: italic;
}

.tabs {
  display: flex;
  gap: 1rem;
  margin-bottom: 1rem;
}

.tab {
  padding: 0.5rem 1rem;
  background-color: var(--secondary);
  border-radius: 5px;
  cursor: pointer;
}

.tab:hover {
  background-color: var(--accent);
  color: #000;
}

.tab.active {
  background-color: var(--accent);
  color: #000;
  font-weight: bold;
}

.styled-table {
  width: 100%;
  border-collapse: collapse;
  margin: 1rem 0;
  font-size: 0.95rem;
  background-color: var(--card-bg);
  color: var(--text-color);
  border-radius: 8px;
  overflow: hidden;
  box-shadow: 0 0 10px rgba(0, 0, 0, 0.25);
}

.styled-table thead {
  background-color: var(--secondary);
  text-align: left;
}

.styled-table th, .styled-table td {
  padding: 0.75rem 1rem;
}

.styled-table tbody tr {
  border-bottom: 1px solid #4444;
}

.styled-table tbody tr:hover {
  background-color: rgba(255, 255, 255, 0.05);
}

.styled-table tbody tr:last-of-type {
  border-bottom: none;
}

.content-section {
  display: none;
  margin-top: 1rem;
  padding: 1rem;
  background-color: var(--card-bg);
  border-radius: 8px;
  box-shadow: 0 0 10px rgba(0, 0, 0, 0.25);
}

.content-section active {
  display: block;
}
        ";

/// Script of the HTML document: it hides the side menu after a while
/// without interaction and switches between sections.
pub const PAGE_JAVASCRIPT: &'static str = "

        lucide.createIcons();

    const sidebar = document.getElementById('sidebar');
    let inactivityTimer;

    function resetInactivityTimer() {
      clearTimeout(inactivityTimer);
      sidebar.classList.remove('hidden');
      inactivityTimer = setTimeout(() => {
        sidebar.classList.add('hidden');
      }, 5000);
    }

    // Réinitialise le timer sur interaction
    ['mousemove', 'keydown', 'click'].forEach(event => {
      document.addEventListener(event, resetInactivityTimer);
    });

    resetInactivityTimer(); // Démarrage initial

    // Navigation : afficher uniquement la section ciblée
    const navLinks = document.querySelectorAll('nav a');
    const sections = document.querySelectorAll('.section');

    navLinks.forEach(link => {
      link.addEventListener('click', () => {
        const targetId = link.getAttribute('data-target');
        sections.forEach(section => {
          section.classList.remove('active');
        });

        document.getElementById(targetId).classList.add('active');
      });
    });

    // Grab pages
    const pages = document.querySelectorAll('.content');
    
    pages.forEach(page => {

      // Data selection listener
      const data_selectors = page.querySelectorAll('.tabs .tab');

      data_selectors.forEach(selector => {

        // Event listener
        selector.addEventListener('click', () => {

          const target = selector.getAttribute('data-target');
          console.log('targetting :' + target);

          data_selectors.forEach(selector => {
            selector.classList.remove('active');
          });

          selector.classList.add('active');

          // Data selection or data filtering
          console.log('classes: '+ selector.classList);
          
          const data_set_selection = selector.getAttribute('filter') == null;

          if (data_set_selection) {
            // locate associated data
            const datas = page.querySelectorAll('.data');
  
            datas.forEach(data => {
              if (data.id == target) {
                data.style.display = 'block';
              } else {
                data.style.display = 'none';
              }
            });
          }

        });
      });
    });
    ";

impl QcReport {
    /// Style sheet of the HTML document.
    pub fn page_css(&self) -> (s: String)
        ensures
            s@ == PAGE_CSS@,
    {
        String::from_str(PAGE_CSS)
    }

    /// Script of the HTML document.
    pub fn javascript(&self) -> (s: String)
        ensures
            s@ == PAGE_JAVASCRIPT@,
    {
        String::from_str(PAGE_JAVASCRIPT)
    }
}

/// Script of the observation reports: it follows the source and
/// constellation choices.
pub const OBSERVATIONS_JAVASCRIPT: &'static str = "
        const agency_form = document.getElementById('orbit-proj-agencies');

        agency_form.addEventListener('change', function(event) {
            const value = event.target.value;
            console.log('selected : ' + value);
        });

        const constell_form = document.getElementById('orbit-proj-constellations');

        constell_form.addEventListener('change', function(event) {
            const value = event.target.value;
            console.log('selected : ' + value);
        });

    ";

/// Script of the orbit projections: it follows the source and
/// constellation choices.
pub const ORBIT_PROJECTIONS_JAVASCRIPT: &'static str = "
        const agency_form = document.getElementById('orbit-proj-agencies');

        agency_form.addEventListener('change', function(event) {
            const value = event.target.value;
            console.log('selected : ' + value);
        });

        const constell_form = document.getElementById('orbit-proj-constellations');

        constell_form.addEventListener('change', function(event) {
            const value = event.target.value;
            console.log('selected : ' + value);
        });

    ";

/// Script of the file summaries: it shows the summary of the file clicked.
pub const FILE_SUMMARIES_JAVASCRIPT: &'static str = "
        // first file shown
        const files_summary = document.querySelectorAll('.file-summary');

        function selectFileSummary(filename) {
            console.log('clicked: ' + filename);
            const targetId = filename + '-sum';
            const files_summary = document.querySelectorAll('.file-summary');

            files_summary.forEach(summary => {
                const sum_id = summary.getAttribute('id');
                if (sum_id == targetId) {
                    summary.setAttribute('style', 'display: block');
                } else {
                    summary.setAttribute('style', 'display: none');
                }
            });
        }
    ";

/// Script of the orbit residuals: it follows the constellation choice.
pub const ORBIT_RESIDUALS_JAVASCRIPT: &'static str = "
        const constell_sel = document.getElementById('orbit-residuals-constell');
        const position_residuals_plots = document.querySelectorAll('.orbit-position-residuals');

        // constellation listener
        constell_sel.addEventListener('change', (event) => {
            console.log('selected constell: ' + event.target.value);

            if (event.target.value == 'All' || event.target.value == 'Both') {
                position_residuals_plots.forEach(plot => {
                    plot.style = 'display: block';
                });
            }
        });
        ";

impl QcObservationsReport {
    /// Script of the observation reports.
    pub fn javascript() -> (s: String)
        ensures
            s@ == OBSERVATIONS_JAVASCRIPT@,
    {
        String::from_str(OBSERVATIONS_JAVASCRIPT)
    }
}

impl QcOrbitProjections {
    /// Script of the orbit projections.
    pub fn javascript() -> (s: String)
        ensures
            s@ == ORBIT_PROJECTIONS_JAVASCRIPT@,
    {
        String::from_str(ORBIT_PROJECTIONS_JAVASCRIPT)
    }
}

impl QcContextSummary {
    /// Script of the file summaries.
    pub fn javascript() -> (s: String)
        ensures
            s@ == FILE_SUMMARIES_JAVASCRIPT@,
    {
        String::from_str(FILE_SUMMARIES_JAVASCRIPT)
    }
}

impl Projection {
    /// Script of the orbit residuals.
    pub fn javascript(&self) -> (s: &'static str)
        ensures
            s@ == ORBIT_RESIDUALS_JAVASCRIPT@,
    {
        ORBIT_RESIDUALS_JAVASCRIPT
    }
}

} // verus!
